//! The agent's decisions: events it reports, the dates it has seen, the
//! order in which it offers found dates, and what it fetches.

use vstd::prelude::*;
use crate::calendar::{parsed_iso_date, weekday_name_of, Date};
use crate::config::{lookup, lookup_entry, Config, Credential, Mode};
use crate::scraper::{
    availability_views, is_availability_url_result, links_availability, ScrapeError, Scraper,
};
use crate::text::string_views;

verus! {

/// The value a field of an event has: the first entry with the key.
pub open spec fn field_value(entries: Seq<(Seq<char>, Seq<char>)>, key: Seq<char>) -> Option<
    Seq<char>,
>
    decreases entries.len(),
{
    if entries.len() == 0 {
        None
    } else if entries[0].0 == key {
        Some(entries[0].1)
    } else {
        field_value(entries.drop_first(), key)
    }
}

/// No key occurs twice.
pub open spec fn distinct_keys(entries: Seq<(Seq<char>, Seq<char>)>) -> bool {
    forall|i: int, j: int|
        0 <= i < entries.len() && 0 <= j < entries.len() && i != j ==> entries[i].0 != entries[j].0
}

/// A log event: its name and its data fields.
#[derive(Clone, Debug)]
pub struct AgentEvent {
    pub event: String,
    pub data: Vec<(String, String)>,
}

proof fn lemma_field_value_at(entries: Seq<(Seq<char>, Seq<char>)>, key: Seq<char>, i: int)
    requires
        distinct_keys(entries),
        0 <= i < entries.len(),
        entries[i].0 == key,
    ensures
        field_value(entries, key) == Some(entries[i].1),
    decreases i,
{
    if i > 0 {
        assert(entries[0].0 != key);
        lemma_field_value_at(entries.drop_first(), key, i - 1);
    }
}

proof fn lemma_field_value_absent(entries: Seq<(Seq<char>, Seq<char>)>, key: Seq<char>)
    requires
        forall|j: int| 0 <= j < entries.len() ==> entries[j].0 != key,
    ensures
        field_value(entries, key) is None,
    decreases entries.len(),
{
    if entries.len() > 0 {
        lemma_field_value_absent(entries.drop_first(), key);
    }
}

proof fn lemma_field_value_of(entries: Seq<(Seq<char>, Seq<char>)>, key: Seq<char>)
    requires
        distinct_keys(entries),
    ensures
        match field_value(entries, key) {
            Some(v) => exists|i: int| 0 <= i < entries.len() && entries[i] == (key, v),
            None => forall|j: int| 0 <= j < entries.len() ==> entries[j].0 != key,
        },
{
    if exists|i: int| 0 <= i < entries.len() && entries[i].0 == key {
        let i = choose|i: int| 0 <= i < entries.len() && entries[i].0 == key;
        lemma_field_value_at(entries, key, i);
    } else {
        lemma_field_value_absent(entries, key);
    }
}

impl AgentEvent {
    /// A copy of the event.
    pub fn duplicate(&self) -> (r: AgentEvent)
        ensures
            r.event == self.event,
            r.data@ == self.data@,
    {
        let mut data: Vec<(String, String)> = Vec::new();
        let mut i: usize = 0;
        while i < self.data.len()
            invariant
                i <= self.data@.len(),
                data@ == self.data@.take(i as int),
            decreases self.data@.len() - i,
        {
            data.push((self.data[i].0.clone(), self.data[i].1.clone()));
            assert(data@ =~= self.data@.take(i + 1));
            i = i + 1;
        }
        assert(self.data@.take(i as int) =~= self.data@);
        AgentEvent { event: self.event.clone(), data }
    }

    /// The views of the data fields.
    pub open spec fn fields(&self) -> Seq<(Seq<char>, Seq<char>)> {
        crate::urls::pair_views(self.data@)
    }

    /// An event with no data.
    pub fn new(event: &str) -> (r: AgentEvent)
        ensures
            r.event@ == event@,
            r.fields() == Seq::<(Seq<char>, Seq<char>)>::empty(),
    {
        let r = AgentEvent { event: event.to_owned(), data: Vec::new() };
        assert(r.fields() =~= Seq::<(Seq<char>, Seq<char>)>::empty());
        r
    }

    /// The event with the field `key` set to `value`, replacing an earlier
    /// value of that field.
    pub fn with_data(self, key: &str, value: String) -> (r: AgentEvent)
        requires
            distinct_keys(self.fields()),
        ensures
            r.event == self.event,
            distinct_keys(r.fields()),
            field_value(r.fields(), key@) == Some(value@),
            forall|k: Seq<char>| k != key@ ==> field_value(r.fields(), k) == field_value(
                self.fields(),
                k,
            ),
    {
        let key_s = key.to_owned();
        let mut data = self.data;
        let ghost oldf = crate::urls::pair_views(data@);
        match crate::config::find_key(&data, &key_s) {
            Some(i) => {
                data.set(i, (key_s, value));
                proof {
                    let newf = crate::urls::pair_views(data@);
                    assert(newf =~= oldf.update(i as int, (key@, value@)));
                    assert forall|a: int, b: int|
                        0 <= a < newf.len() && 0 <= b < newf.len() && a != b implies newf[a].0
                        != newf[b].0 by {
                        assert(newf[a].0 == oldf[a].0);
                        assert(newf[b].0 == oldf[b].0);
                    }
                    lemma_field_value_at(newf, key@, i as int);
                    assert forall|k: Seq<char>| k != key@ implies field_value(newf, k)
                        == field_value(oldf, k) by {
                        lemma_field_value_of(newf, k);
                        lemma_field_value_of(oldf, k);
                        if field_value(newf, k) is Some {
                            let v = field_value(newf, k).unwrap();
                            let j = choose|j: int| 0 <= j < newf.len() && newf[j] == (k, v);
                            assert(oldf[j] == newf[j]);
                            lemma_field_value_at(oldf, k, j);
                        } else if field_value(oldf, k) is Some {
                            let v = field_value(oldf, k).unwrap();
                            let j = choose|j: int| 0 <= j < oldf.len() && oldf[j] == (k, v);
                            assert(oldf[j] == newf[j]);
                        }
                    }
                }
            },
            None => {
                data.push((key_s, value));
                proof {
                    let newf = crate::urls::pair_views(data@);
                    assert(newf =~= oldf.push((key@, value@)));
                    assert(distinct_keys(newf));
                    lemma_field_value_at(newf, key@, oldf.len() as int);
                    assert forall|k: Seq<char>| k != key@ implies field_value(newf, k)
                        == field_value(oldf, k) by {
                        lemma_field_value_of(newf, k);
                        lemma_field_value_of(oldf, k);
                        if field_value(newf, k) is Some {
                            let v = field_value(newf, k).unwrap();
                            let j = choose|j: int| 0 <= j < newf.len() && newf[j] == (k, v);
                            assert(oldf[j] == newf[j]);
                            lemma_field_value_at(oldf, k, j);
                        } else if field_value(oldf, k) is Some {
                            let v = field_value(oldf, k).unwrap();
                            let j = choose|j: int| 0 <= j < oldf.len() && oldf[j] == (k, v);
                            assert(oldf[j] == newf[j]);
                        }
                    }
                }
            },
        }
        AgentEvent { event: self.event, data }
    }
}

#[verifier::external_type_specification]
#[verifier::external_body]
#[verifier::reject_recursive_types(K)]
#[verifier::reject_recursive_types(V)]
#[verifier::reject_recursive_types(S)]
pub struct ExDashMap<K, V, S>(dashmap::DashMap<K, V, S>);

/// The keys a `DashMap<String, ()>` holds.
pub uninterp spec fn seen_keys(m: dashmap::DashMap<String, ()>) -> Set<Seq<char>>;

/// `DashMap::new`: an empty map.
#[verifier::external_body]
fn seen_map_new() -> (r: dashmap::DashMap<String, ()>)
    ensures
        seen_keys(r) == Set::<Seq<char>>::empty(),
{
    dashmap::DashMap::new()
}

/// `DashMap::contains_key`: whether the map holds `key` (no reference into
/// the map is held, so it cannot deadlock).
#[verifier::external_body]
fn seen_map_contains(m: &dashmap::DashMap<String, ()>, key: &String) -> (r: bool)
    ensures
        r == seen_keys(*m).contains(key@),
{
    m.contains_key(key)
}

/// `DashMap::insert`: the map afterwards holds `key` as well (no reference
/// into the map is held, so it cannot deadlock).
#[verifier::external_body]
fn seen_map_insert(m: &mut dashmap::DashMap<String, ()>, key: String)
    ensures
        seen_keys(*final(m)) == seen_keys(*old(m)).insert(key@),
{
    m.insert(key, ());
}

/// A bookable date found while checking: its `YYYY-MM-DD` date and its
/// booking URL.
#[derive(Clone, Debug)]
pub struct AvailabilitySlot {
    pub date: String,
    pub booking_url: String,
}

/// What the logic reads of a slot.
pub open spec fn slot_view(s: AvailabilitySlot) -> (Seq<char>, Seq<char>) {
    (s.date@, s.booking_url@)
}

/// The views of slots.
pub open spec fn slot_views(v: Seq<AvailabilitySlot>) -> Seq<(Seq<char>, Seq<char>)> {
    v.map_values(|s: AvailabilitySlot| slot_view(s))
}

/// The slots whose dates are new: not in `seen`, nor in an earlier slot.
pub open spec fn unseen_slots(seen: Set<Seq<char>>, slots: Seq<(Seq<char>, Seq<char>)>) -> Seq<
    (Seq<char>, Seq<char>),
>
    decreases slots.len(),
{
    if slots.len() == 0 {
        Seq::empty()
    } else if seen.contains(slots[0].0) {
        unseen_slots(seen, slots.drop_first())
    } else {
        seq![slots[0]] + unseen_slots(seen.insert(slots[0].0), slots.drop_first())
    }
}

/// The dates of slots.
pub open spec fn slot_dates(slots: Seq<(Seq<char>, Seq<char>)>) -> Set<Seq<char>> {
    Set::new(|d: Seq<char>| exists|i: int| 0 <= i < slots.len() && slots[i].0 == d)
}

/// The event reporting a new date.
pub open spec fn is_found_event(e: AgentEvent, slot: (Seq<char>, Seq<char>)) -> bool {
    &&& e.event@ == "availability_found"@
    &&& distinct_keys(e.fields())
    &&& field_value(e.fields(), "date"@) == Some(slot.0)
    &&& field_value(e.fields(), "booking_url"@) == Some(slot.1)
}

/// The agent's configuration and the dates it has seen during its run.
pub struct Agent {
    config: Config,
    seen_dates: dashmap::DashMap<String, ()>,
    dry_run: bool,
}

proof fn lemma_unseen_step(seen: Set<Seq<char>>, slots: Seq<(Seq<char>, Seq<char>)>, i: int)
    requires
        0 <= i < slots.len(),
    ensures
        unseen_slots(seen, slots.skip(i)) == if seen.contains(slots[i].0) {
            unseen_slots(seen, slots.skip(i + 1))
        } else {
            seq![slots[i]] + unseen_slots(seen.insert(slots[i].0), slots.skip(i + 1))
        },
{
    assert(slots.skip(i).drop_first() =~= slots.skip(i + 1));
}

impl Agent {
    /// The dates seen so far.
    pub closed spec fn seen(&self) -> Set<Seq<char>> {
        seen_keys(self.seen_dates)
    }

    /// The agent's configuration.
    pub closed spec fn settings(&self) -> Config {
        self.config
    }

    /// The agent's configuration.
    pub fn config(&self) -> (r: &Config)
        ensures
            *r == self.settings(),
    {
        &self.config
    }

    /// Whether the agent only pretends to book.
    pub closed spec fn is_dry_run(&self) -> bool {
        self.dry_run
    }

    /// An agent for a configuration that has seen no date yet, and books.
    pub fn new(config: Config) -> (r: Agent)
        requires
            config.wf(),
        ensures
            r.settings() == config,
            r.seen() == Set::<Seq<char>>::empty(),
            !r.is_dry_run(),
    {
        Agent { config, seen_dates: seen_map_new(), dry_run: false }
    }

    /// The agent with dry runs switched on or off: in a dry run it posts no
    /// login and no booking.
    pub fn with_dry_run(self, dry_run: bool) -> (r: Agent)
        ensures
            r.settings() == self.settings(),
            r.seen() == self.seen(),
            r.is_dry_run() == dry_run,
    {
        Agent { config: self.config, seen_dates: self.seen_dates, dry_run }
    }

    /// Records the slots of one check: the ones with new dates are appended
    /// to `found` in order, and one `availability_found` event is returned
    /// for each; every date of `slots` counts as seen afterwards.
    pub fn record_slots(
        &mut self,
        slots: Vec<AvailabilitySlot>,
        found: &mut Vec<AvailabilitySlot>,
    ) -> (events: Vec<AgentEvent>)
        ensures
            final(self).settings() == old(self).settings(),
            final(self).is_dry_run() == old(self).is_dry_run(),
            final(self).seen() == old(self).seen().union(slot_dates(slot_views(slots@))),
            slot_views(final(found)@) == slot_views(old(found)@) + unseen_slots(
                old(self).seen(),
                slot_views(slots@),
            ),
            events@.len() == unseen_slots(old(self).seen(), slot_views(slots@)).len(),
            forall|k: int|
                0 <= k < events@.len() ==> is_found_event(
                    #[trigger] events@[k],
                    unseen_slots(old(self).seen(), slot_views(slots@))[k],
                ),
    {
        let ghost sv = slot_views(slots@);
        let ghost seen0 = self.seen();
        let ghost found0 = slot_views(found@);
        let mut events: Vec<AgentEvent> = Vec::new();
        let mut i: usize = 0;
        assert(sv.skip(0) =~= sv);
        assert(found0 + Seq::<(Seq<char>, Seq<char>)>::empty() =~= found0);
        while i < slots.len()
            invariant
                i <= slots@.len(),
                sv == slot_views(slots@),
                self.config == old(self).config,
                self.dry_run == old(self).dry_run,
                self.seen() == seen0.union(slot_dates(sv.take(i as int))),
                found0 + unseen_slots(seen0, sv) == slot_views(found@) + unseen_slots(
                    self.seen(),
                    sv.skip(i as int),
                ),
                slot_views(found@).len() == found0.len() + events@.len(),
                forall|k: int|
                    0 <= k < events@.len() ==> is_found_event(
                        #[trigger] events@[k],
                        slot_views(found@)[found0.len() + k],
                    ),
            decreases slots@.len() - i,
        {
            let slot = &slots[i];
            proof {
                lemma_unseen_step(self.seen(), sv, i as int);
                assert(sv[i as int] == slot_view(*slot));
                let before = sv.take(i as int);
                let after = sv.take(i + 1);
                assert forall|d: Seq<char>| slot_dates(after).contains(d) <==> slot_dates(
                    before,
                ).insert(slot.date@).contains(d) by {
                    if slot_dates(after).contains(d) {
                        let j = choose|j: int| 0 <= j < after.len() && after[j].0 == d;
                        if j < i {
                            assert(before[j] == after[j]);
                        }
                    }
                    if slot_dates(before).contains(d) {
                        let j = choose|j: int| 0 <= j < before.len() && before[j].0 == d;
                        assert(after[j] == before[j]);
                    }
                    if d == slot.date@ {
                        assert(after[i as int].0 == d);
                    }
                }
                assert(slot_dates(after) =~= slot_dates(before).insert(slot.date@));
            }
            if !seen_map_contains(&self.seen_dates, &slot.date) {
                seen_map_insert(&mut self.seen_dates, slot.date.clone());
                let e0 = AgentEvent::new("availability_found");
                let e1 = e0.with_data("date", slot.date.clone());
                let e = e1.with_data("booking_url", slot.booking_url.clone());
                proof {
                    reveal_strlit("date");
                    reveal_strlit("booking_url");
                    assert("date"@.len() != "booking_url"@.len());
                    assert(is_found_event(e, slot_view(*slot)));
                }
                let ghost prev_found = slot_views(found@);
                found.push(
                    AvailabilitySlot { date: slot.date.clone(), booking_url: slot.booking_url.clone() },
                );
                events.push(e);
                proof {
                    assert(slot_views(found@) =~= prev_found.push(slot_view(*slot)));
                    assert forall|k: int| 0 <= k < events@.len() implies is_found_event(
                        #[trigger] events@[k],
                        slot_views(found@)[found0.len() + k],
                    ) by {
                        if k < events@.len() - 1 {
                            assert(slot_views(found@)[found0.len() + k] == prev_found[found0.len()
                                + k]);
                        }
                    }
                    assert(slot_views(found@) + unseen_slots(self.seen(), sv.skip(i + 1))
                        =~= prev_found + (seq![sv[i as int]] + unseen_slots(
                        self.seen(),
                        sv.skip(i + 1),
                    )));
                }
            } else {
                proof {
                    assert(self.seen().insert(slot.date@) =~= self.seen());
                }
            }
            i = i + 1;
        }
        proof {
            assert(sv.take(slots@.len() as int) =~= sv);
            assert(sv.skip(slots@.len() as int) =~= Seq::<(Seq<char>, Seq<char>)>::empty());
            assert(slot_views(found@) + Seq::<(Seq<char>, Seq<char>)>::empty() =~= slot_views(
                found@,
            ));
            assert forall|k: int| 0 <= k < events@.len() implies is_found_event(
                #[trigger] events@[k],
                unseen_slots(seen0, sv)[k],
            ) by {
                assert(slot_views(found@)[found0.len() + k] == (found0 + unseen_slots(seen0, sv))[
                    found0.len() + k]);
            }
        }
        events
    }
}

/// Law: no new date is lost. Every slot whose date is not yet seen has its
/// date reported, and every reported slot is one of the given slots.
pub proof fn law_every_new_date_is_reported(
    seen: Set<Seq<char>>,
    slots: Seq<(Seq<char>, Seq<char>)>,
)
    ensures
        forall|k: int|
            0 <= k < slots.len() && !seen.contains(#[trigger] slots[k].0) ==> exists|j: int|
                0 <= j < unseen_slots(seen, slots).len() && unseen_slots(seen, slots)[j].0
                    == slots[k].0,
        forall|j: int|
            0 <= j < unseen_slots(seen, slots).len() ==> slots.contains(
                #[trigger] unseen_slots(seen, slots)[j],
            ),
    decreases slots.len(),
{
    if slots.len() > 0 {
        let rest = slots.drop_first();
        let all = unseen_slots(seen, slots);
        if seen.contains(slots[0].0) {
            law_every_new_date_is_reported(seen, rest);
            assert(all == unseen_slots(seen, rest));
            assert forall|k: int|
                0 <= k < slots.len() && !seen.contains(#[trigger] slots[k].0) implies exists|j: int|
                0 <= j < all.len() && all[j].0 == slots[k].0 by {
                assert(k > 0);
                assert(rest[k - 1] == slots[k]);
            }
            assert forall|j: int| 0 <= j < all.len() implies slots.contains(#[trigger] all[j]) by {
                assert(rest.contains(all[j]));
                let i = choose|i: int| 0 <= i < rest.len() && rest[i] == all[j];
                assert(slots[i + 1] == all[j]);
            }
        } else {
            let seen2 = seen.insert(slots[0].0);
            law_every_new_date_is_reported(seen2, rest);
            let tail = unseen_slots(seen2, rest);
            assert(all == seq![slots[0]] + tail);
            assert forall|k: int|
                0 <= k < slots.len() && !seen.contains(#[trigger] slots[k].0) implies exists|j: int|
                0 <= j < all.len() && all[j].0 == slots[k].0 by {
                if k == 0 || slots[k].0 == slots[0].0 {
                    assert(all[0].0 == slots[k].0);
                } else {
                    assert(rest[k - 1] == slots[k]);
                    assert(!seen2.contains(rest[k - 1].0));
                    let j = choose|j: int| 0 <= j < tail.len() && tail[j].0 == rest[k - 1].0;
                    assert(all[j + 1] == tail[j]);
                }
            }
            assert forall|j: int| 0 <= j < all.len() implies slots.contains(#[trigger] all[j]) by {
                if j == 0 {
                    assert(slots[0] == all[0]);
                } else {
                    assert(all[j] == tail[j - 1]);
                    assert(rest.contains(tail[j - 1]));
                    let i = choose|i: int| 0 <= i < rest.len() && rest[i] == tail[j - 1];
                    assert(slots[i + 1] == all[j]);
                }
            }
        }
    }
}

/// The dates `unseen_slots` keeps are new to `seen`, pairwise distinct, and
/// dates of the given slots.
pub proof fn lemma_unseen_slots_fresh(seen: Set<Seq<char>>, slots: Seq<(Seq<char>, Seq<char>)>)
    ensures
        forall|k: int|
            0 <= k < unseen_slots(seen, slots).len() ==> !seen.contains(
                #[trigger] unseen_slots(seen, slots)[k].0,
            ) && slot_dates(slots).contains(unseen_slots(seen, slots)[k].0),
        forall|a: int, b: int|
            0 <= a < b < unseen_slots(seen, slots).len() ==> #[trigger] unseen_slots(seen, slots)[a].0
                != #[trigger] unseen_slots(seen, slots)[b].0,
    decreases slots.len(),
{
    if slots.len() > 0 {
        let rest = slots.drop_first();
        if seen.contains(slots[0].0) {
            lemma_unseen_slots_fresh(seen, rest);
            assert forall|k: int| 0 <= k < unseen_slots(seen, rest).len() implies slot_dates(
                slots,
            ).contains(#[trigger] unseen_slots(seen, rest)[k].0) by {
                let d = unseen_slots(seen, rest)[k].0;
                let j = choose|j: int| 0 <= j < rest.len() && rest[j].0 == d;
                assert(slots[j + 1] == rest[j]);
            }
        } else {
            let seen2 = seen.insert(slots[0].0);
            lemma_unseen_slots_fresh(seen2, rest);
            let tail = unseen_slots(seen2, rest);
            let all = unseen_slots(seen, slots);
            assert(all == seq![slots[0]] + tail);
            assert forall|k: int| 0 <= k < all.len() implies !seen.contains(#[trigger] all[k].0)
                && slot_dates(slots).contains(all[k].0) by {
                if k > 0 {
                    assert(all[k] == tail[k - 1]);
                    let d = tail[k - 1].0;
                    let j = choose|j: int| 0 <= j < rest.len() && rest[j].0 == d;
                    assert(slots[j + 1] == rest[j]);
                } else {
                    assert(slots[0].0 == all[0].0);
                }
            }
            assert forall|a: int, b: int| 0 <= a < b < all.len() implies #[trigger] all[a].0
                != #[trigger] all[b].0 by {
                assert(all[b] == tail[b - 1]);
                if a > 0 {
                    assert(all[a] == tail[a - 1]);
                } else {
                    assert(!seen2.contains(tail[b - 1].0));
                }
            }
        }
    }
}

/// The dates seen after the first `k` checks of a run that started having
/// seen `seen`, each check recording the slots in `checks`.
pub open spec fn seen_after(
    seen: Set<Seq<char>>,
    checks: Seq<Seq<(Seq<char>, Seq<char>)>>,
    k: nat,
) -> Set<Seq<char>>
    decreases k,
{
    if k == 0 {
        seen
    } else {
        seen_after(seen, checks, (k - 1) as nat).union(slot_dates(checks[k - 1]))
    }
}

/// The slots check `k` reports: those of its slots whose dates are new.
pub open spec fn reported(
    seen: Set<Seq<char>>,
    checks: Seq<Seq<(Seq<char>, Seq<char>)>>,
    k: int,
) -> Seq<(Seq<char>, Seq<char>)> {
    unseen_slots(seen_after(seen, checks, k as nat), checks[k])
}

proof fn lemma_seen_after_grows(
    seen: Set<Seq<char>>,
    checks: Seq<Seq<(Seq<char>, Seq<char>)>>,
    i: int,
    j: nat,
)
    requires
        0 <= i < j <= checks.len(),
    ensures
        slot_dates(checks[i]).subset_of(seen_after(seen, checks, j)),
    decreases j,
{
    if i < j - 1 {
        lemma_seen_after_grows(seen, checks, i, (j - 1) as nat);
    }
}

/// Law: no date is reported twice in a run of one agent: over any sequence
/// of checks, each check's slots recorded in turn (as `record_slots` does),
/// the dates reported by one check are distinct, and no date reported by a
/// check is reported by a later one.
pub proof fn law_no_date_reported_twice(
    seen: Set<Seq<char>>,
    checks: Seq<Seq<(Seq<char>, Seq<char>)>>,
)
    ensures
        forall|k: int, a: int, b: int|
            0 <= k < checks.len() && 0 <= a < b < reported(seen, checks, k).len() ==> #[trigger] reported(
                seen,
                checks,
                k,
            )[a].0 != #[trigger] reported(seen, checks, k)[b].0,
        forall|i: int, j: int, a: int, b: int|
            0 <= i < j < checks.len() && 0 <= a < reported(seen, checks, i).len() && 0 <= b
                < reported(seen, checks, j).len() ==> #[trigger] reported(seen, checks, i)[a].0
                != #[trigger] reported(seen, checks, j)[b].0,
{
    assert forall|k: int, a: int, b: int|
        0 <= k < checks.len() && 0 <= a < b < reported(seen, checks, k).len() implies #[trigger] reported(
        seen,
        checks,
        k,
    )[a].0 != #[trigger] reported(seen, checks, k)[b].0 by {
        lemma_unseen_slots_fresh(seen_after(seen, checks, k as nat), checks[k]);
    }
    assert forall|i: int, j: int, a: int, b: int|
        0 <= i < j < checks.len() && 0 <= a < reported(seen, checks, i).len() && 0 <= b
            < reported(seen, checks, j).len() implies #[trigger] reported(seen, checks, i)[a].0
        != #[trigger] reported(seen, checks, j)[b].0 by {
        lemma_unseen_slots_fresh(seen_after(seen, checks, i as nat), checks[i]);
        lemma_unseen_slots_fresh(seen_after(seen, checks, j as nat), checks[j]);
        lemma_seen_after_grows(seen, checks, i, j as nat);
        assert(slot_dates(checks[i]).contains(reported(seen, checks, i)[a].0));
        assert(!seen_after(seen, checks, j as nat).contains(reported(seen, checks, j)[b].0));
    }
}

/// Whether `date` (`YYYY-MM-DD`) falls on one of the preferred weekdays.
pub open spec fn preferred_date(days: Seq<Seq<char>>, date: Seq<char>) -> bool {
    match parsed_iso_date(date) {
        Some(d) => days.contains(weekday_name_of(d.0, d.1, d.2)),
        None => false,
    }
}

/// Law: the preferred days are exactly the configured ones. With no
/// configured day no date is preferred; a valid date is preferred when the
/// name of its weekday is configured; and adding a day name to the list
/// makes preferred exactly the dates of that weekday besides those already
/// preferred. A date that does not parse is never preferred.
pub proof fn law_preferred_days_are_the_configured_ones(
    days: Seq<Seq<char>>,
    name: Seq<char>,
    date: Seq<char>,
)
    ensures
        !preferred_date(Seq::<Seq<char>>::empty(), date),
        parsed_iso_date(date) is None ==> !preferred_date(days, date),
        parsed_iso_date(date) matches Some(d) ==> (preferred_date(days, date) <==> exists|i: int|
            0 <= i < days.len() && days[i] == weekday_name_of(d.0, d.1, d.2)),
        preferred_date(days.push(name), date) == (preferred_date(days, date) || (parsed_iso_date(
            date,
        ) matches Some(d) && weekday_name_of(d.0, d.1, d.2) == name)),
{
    if let Some(d) = parsed_iso_date(date) {
        let w = weekday_name_of(d.0, d.1, d.2);
        assert(days.push(name)[days.len() as int] == name);
        if days.push(name).contains(w) {
            let i = choose|i: int| 0 <= i < days.push(name).len() && days.push(name)[i] == w;
            if i < days.len() {
                assert(days[i] == w);
            }
        }
        if days.contains(w) {
            let i = choose|i: int| 0 <= i < days.len() && days[i] == w;
            assert(days.push(name)[i] == w);
        }
    }
}

/// The slots with (`want == true`) or without a preferred date, in order.
pub open spec fn slots_by_preference(
    days: Seq<Seq<char>>,
    slots: Seq<(Seq<char>, Seq<char>)>,
    want: bool,
) -> Seq<(Seq<char>, Seq<char>)>
    decreases slots.len(),
{
    if slots.len() == 0 {
        Seq::empty()
    } else {
        let prev = slots_by_preference(days, slots.drop_last(), want);
        if preferred_date(days, slots.last().0) == want {
            prev.push(slots.last())
        } else {
            prev
        }
    }
}

/// The slots reordered with preferred dates first, each group in its
/// original order (a stable sort on "is preferred").
pub open spec fn preferred_first(days: Seq<Seq<char>>, slots: Seq<(Seq<char>, Seq<char>)>) -> Seq<
    (Seq<char>, Seq<char>),
> {
    slots_by_preference(days, slots, true) + slots_by_preference(days, slots, false)
}

proof fn lemma_slots_by_preference_match(
    days: Seq<Seq<char>>,
    slots: Seq<(Seq<char>, Seq<char>)>,
    want: bool,
)
    ensures
        forall|k: int|
            0 <= k < slots_by_preference(days, slots, want).len() ==> preferred_date(
                days,
                #[trigger] slots_by_preference(days, slots, want)[k].0,
            ) == want,
    decreases slots.len(),
{
    if slots.len() > 0 {
        lemma_slots_by_preference_match(days, slots.drop_last(), want);
        let prev = slots_by_preference(days, slots.drop_last(), want);
        let r = slots_by_preference(days, slots, want);
        assert forall|k: int| 0 <= k < r.len() implies preferred_date(days, #[trigger] r[k].0)
            == want by {
            if k < prev.len() {
                assert(r[k] == prev[k]);
            }
        }
    }
}

/// Law: preferred dates come first. In the order used for notifying and
/// booking, no slot with a preferred date comes after one without.
pub proof fn law_preferred_dates_come_first(
    days: Seq<Seq<char>>,
    slots: Seq<(Seq<char>, Seq<char>)>,
)
    ensures
        forall|i: int, j: int|
            0 <= i < j < preferred_first(days, slots).len() && preferred_date(
                days,
                #[trigger] preferred_first(days, slots)[j].0,
            ) ==> preferred_date(days, #[trigger] preferred_first(days, slots)[i].0),
{
    lemma_slots_by_preference_match(days, slots, true);
    lemma_slots_by_preference_match(days, slots, false);
    let a = slots_by_preference(days, slots, true);
    let b = slots_by_preference(days, slots, false);
    let r = preferred_first(days, slots);
    assert forall|i: int, j: int|
        0 <= i < j < r.len() && preferred_date(days, #[trigger] r[j].0) implies preferred_date(
        days,
        #[trigger] r[i].0,
    ) by {
        if j >= a.len() {
            assert(r[j] == b[j - a.len()]);
        } else {
            assert(r[i] == a[i]);
        }
    }
}

/// Why the agent cannot act on its configuration.
#[derive(Clone, Copy, Debug, PartialEq, Eq, Structural)]
pub enum AgentError {
    /// `active_site` names no site.
    NoActiveSite,
    /// The active site has no museum under its preferred slug.
    NoPreferredMuseum,
    /// `selected_credential` names no credential.
    NoSelectedCredential,
}

impl AvailabilitySlot {
    /// A copy of the slot.
    pub fn duplicate(&self) -> (r: AvailabilitySlot)
        ensures
            r == *self,
    {
        AvailabilitySlot { date: self.date.clone(), booking_url: self.booking_url.clone() }
    }
}

impl Agent {
    /// Whether a `YYYY-MM-DD` date falls on a preferred weekday.
    pub fn is_preferred_day(&self, date_str: &str) -> (r: bool)
        ensures
            r == preferred_date(string_views(self.settings().preferred_days@), date_str@),
    {
        let ghost days = string_views(self.config.preferred_days@);
        match Date::parse_iso(date_str) {
            Some(date) => {
                let name = date.weekday_name();
                let mut i: usize = 0;
                while i < self.config.preferred_days.len()
                    invariant
                        i <= self.config.preferred_days@.len(),
                        days == string_views(self.config.preferred_days@),
                        parsed_iso_date(date_str@) == Some(date@),
                        name@ == weekday_name_of(date@.0, date@.1, date@.2),
                        forall|j: int| 0 <= j < i ==> days[j] != name@,
                    decreases self.config.preferred_days@.len() - i,
                {
                    if self.config.preferred_days[i] == name {
                        assert(days[i as int] == name@);
                        assert(days.contains(name@));
                        return true;
                    }
                    i = i + 1;
                }
                assert(!days.contains(name@));
                false
            },
            None => false,
        }
    }

    /// The slots with preferred dates first, each group in its original order.
    pub fn preferred_order(&self, slots: &Vec<AvailabilitySlot>) -> (r: Vec<AvailabilitySlot>)
        ensures
            slot_views(r@) == preferred_first(
                string_views(self.settings().preferred_days@),
                slot_views(slots@),
            ),
    {
        let ghost days = string_views(self.config.preferred_days@);
        let ghost sv = slot_views(slots@);
        let mut preferred: Vec<AvailabilitySlot> = Vec::new();
        let mut others: Vec<AvailabilitySlot> = Vec::new();
        let mut i: usize = 0;
        assert(sv.take(0) =~= Seq::<(Seq<char>, Seq<char>)>::empty());
        assert(slot_views(preferred@) =~= Seq::<(Seq<char>, Seq<char>)>::empty());
        assert(slot_views(others@) =~= Seq::<(Seq<char>, Seq<char>)>::empty());
        while i < slots.len()
            invariant
                i <= slots@.len(),
                sv == slot_views(slots@),
                days == string_views(self.config.preferred_days@),
                slot_views(preferred@) == slots_by_preference(days, sv.take(i as int), true),
                slot_views(others@) == slots_by_preference(days, sv.take(i as int), false),
            decreases slots@.len() - i,
        {
            let slot = &slots[i];
            proof {
                assert(sv.take(i + 1).drop_last() =~= sv.take(i as int));
                assert(sv.take(i + 1).last() == slot_view(*slot));
            }
            if self.is_preferred_day(slot.date.as_str()) {
                let ghost prev = slot_views(preferred@);
                preferred.push(slot.duplicate());
                assert(slot_views(preferred@) =~= prev.push(slot_view(*slot)));
            } else {
                let ghost prev = slot_views(others@);
                others.push(slot.duplicate());
                assert(slot_views(others@) =~= prev.push(slot_view(*slot)));
            }
            i = i + 1;
        }
        assert(sv.take(slots@.len() as int) =~= sv);
        let ghost p = slot_views(preferred@);
        let mut k: usize = 0;
        while k < others.len()
            invariant
                k <= others@.len(),
                slot_views(preferred@) == p + slot_views(others@).take(k as int),
            decreases others@.len() - k,
        {
            let ghost prev = slot_views(preferred@);
            preferred.push(others[k].duplicate());
            assert(slot_views(preferred@) =~= prev.push(slot_view(others@[k as int])));
            assert(slot_views(others@).take(k + 1) =~= slot_views(others@).take(k as int).push(
                slot_view(others@[k as int]),
            ));
            k = k + 1;
        }
        assert(slot_views(others@).take(others@.len() as int) =~= slot_views(others@));
        preferred
    }
}

/// An ntfy notification: where to post it, its title and its body.
#[derive(Clone, Debug)]
pub struct Notification {
    pub url: String,
    pub title: String,
    pub message: String,
}

/// At most the first three slots.
pub open spec fn first_three(slots: Seq<(Seq<char>, Seq<char>)>) -> Seq<(Seq<char>, Seq<char>)> {
    if slots.len() > 3 {
        slots.take(3)
    } else {
        slots
    }
}

/// Law: a notification shows the first three slots, or all of them where
/// there are fewer, in the order given.
pub proof fn law_notification_shows_up_to_three(slots: Seq<(Seq<char>, Seq<char>)>)
    ensures
        first_three(slots).len() == if slots.len() < 3 {
            slots.len()
        } else {
            3
        },
        forall|k: int| 0 <= k < first_three(slots).len() ==> #[trigger] first_three(slots)[k]
            == slots[k],
{
}

/// One line per slot: a calendar emoji, the date, and the booking URL.
pub open spec fn notification_lines(slots: Seq<(Seq<char>, Seq<char>)>) -> Seq<char>
    decreases slots.len(),
{
    if slots.len() == 0 {
        Seq::empty()
    } else {
        notification_lines(slots.drop_last()) + "📅 "@ + slots.last().0 + " - "@ + slots.last().1
            + "\n"@
    }
}

/// The name shown in notifications: the active site's, or `Appointment`.
pub open spec fn shown_site_name(config: Config) -> Seq<char> {
    match lookup(config.sites@, config.active_site@) {
        Some(site) => site.name@,
        None => "Appointment"@,
    }
}

/// The notification for found slots: up to three of them, preferred dates
/// first, posted to the configured ntfy topic.
pub open spec fn is_notification(n: Notification, config: Config, slots: Seq<(Seq<char>, Seq<char>)>) -> bool {
    let shown = first_three(preferred_first(string_views(config.preferred_days@), slots));
    &&& n.url@ == "https://ntfy.sh/"@ + config.ntfy_topic@
    &&& n.title@ == "🎫 "@ + shown_site_name(config) + " Availability Found!"@
    &&& n.message@ == "Available dates:\n"@ + notification_lines(shown)
}

impl Agent {
    /// The notification announcing found slots.
    pub fn notification(&self, slots: &Vec<AvailabilitySlot>) -> (r: Notification)
        ensures
            is_notification(r, self.settings(), slot_views(slots@)),
    {
        let ordered = self.preferred_order(slots);
        let ghost shown = first_three(slot_views(ordered@));
        let count: usize = if ordered.len() > 3 {
            3
        } else {
            ordered.len()
        };
        assert(shown =~= slot_views(ordered@).take(count as int));
        let mut title = "🎫 ".to_owned();
        match self.config.get_active_site() {
            Some(site) => title.append(site.name.as_str()),
            None => title.append("Appointment"),
        }
        title.append(" Availability Found!");
        let mut message = "Available dates:\n".to_owned();
        let ghost head = message@;
        let mut i: usize = 0;
        assert(shown.take(0) =~= Seq::<(Seq<char>, Seq<char>)>::empty());
        assert(head + notification_lines(shown.take(0)) =~= head);
        while i < count
            invariant
                count <= ordered@.len(),
                i <= count,
                shown == slot_views(ordered@).take(count as int),
                message@ == head + notification_lines(shown.take(i as int)),
            decreases count - i,
        {
            let slot = &ordered[i];
            message.append("📅 ");
            message.append(slot.date.as_str());
            message.append(" - ");
            message.append(slot.booking_url.as_str());
            message.append("\n");
            proof {
                assert(shown.take(i + 1).drop_last() =~= shown.take(i as int));
                assert(shown.take(i + 1).last() == slot_view(*slot));
                assert(message@ =~= head + notification_lines(shown.take(i + 1)));
            }
            i = i + 1;
        }
        assert(shown.take(count as int) =~= shown);
        let mut url = "https://ntfy.sh/".to_owned();
        url.append(self.config.ntfy_topic.as_str());
        Notification { url, title, message }
    }
}

/// What booking found slots needs: the card, the site's success indicator,
/// the slots in the order to try them, and whether this is a dry run (in
/// which no login or booking is posted).
#[derive(Debug)]
pub struct BookingPlan {
    pub credential: Credential,
    pub success_indicator: String,
    pub slots: Vec<AvailabilitySlot>,
    pub dry_run: bool,
}

/// Why one month's availability URL could not be built.
#[derive(Clone, Debug)]
pub enum MonthError {
    /// The month's date lies outside chrono's range.
    DateOutOfRange,
    /// The site's URLs are invalid.
    Url(ScrapeError),
}

/// The availability request of one calendar month: which month after the
/// drop date's it is, the date asked for, and its URL.
#[derive(Debug)]
pub struct MonthRequest {
    pub offset: u32,
    pub date: Option<Date>,
    pub url: Result<String, MonthError>,
}

/// The date asked for in the calendar month `offset` months after the drop
/// date's: the drop date itself for its own month, the first day of each
/// later month; `None` where that day is not a date chrono holds.
pub open spec fn month_date(drop_date: (int, int, int), offset: int) -> Option<(int, int, int)> {
    if offset == 0 {
        Some(drop_date)
    } else {
        let months = drop_date.1 - 1 + offset;
        let year = drop_date.0 + months / 12;
        let month = months % 12 + 1;
        if i32::MIN <= year <= i32::MAX && crate::calendar::is_calendar_date(year, month, 1) {
            Some((year, month, 1))
        } else {
            None
        }
    }
}

/// Law: the months asked for are consecutive calendar months: the first is
/// the drop date itself, and the one `offset` months later is the first day
/// of the calendar month `offset` months after the drop date's.
pub proof fn law_months_are_consecutive(drop_date: (int, int, int), offset: int)
    requires
        1 <= drop_date.1 <= 12,
        offset >= 0,
    ensures
        month_date(drop_date, 0) == Some(drop_date),
        offset >= 1 && month_date(drop_date, offset) is Some ==> {
            let d = month_date(drop_date, offset)->0;
            &&& d.0 * 12 + d.1 == drop_date.0 * 12 + drop_date.1 + offset
            &&& 1 <= d.1 <= 12
            &&& d.2 == 1
        },
{
    if offset >= 1 {
        let months = drop_date.1 - 1 + offset;
        assert(months == (months / 12) * 12 + months % 12);
    }
}

/// What the request for the month at `offset` is: the date of that month,
/// and the availability URL of that date for the preferred museum.
pub open spec fn is_month_request(
    m: MonthRequest,
    site: crate::config::Site,
    museum_id: Seq<char>,
    drop_date: (int, int, int),
    offset: int,
) -> bool {
    &&& m.offset == offset
    &&& match month_date(drop_date, offset) {
        None => m.date is None && m.url matches Err(MonthError::DateOutOfRange),
        Some(d) => m.date matches Some(x) && x@ == d && match m.url {
            Ok(u) => is_availability_url_result(site, museum_id, d, Ok(u)),
            Err(MonthError::Url(e)) => is_availability_url_result(site, museum_id, d, Err(e)),
            Err(MonthError::DateOutOfRange) => false,
        },
    }
}

/// The date asked for in the month `offset` months after `drop_date`'s.
fn month_date_exec(drop_date: Date, offset: u32) -> (r: Option<Date>)
    ensures
        match month_date(drop_date@, offset as int) {
            Some(d) => r matches Some(x) && x@ == d,
            None => r is None,
        },
{
    if offset == 0 {
        return Some(drop_date);
    }
    let months: i64 = drop_date.month() as i64 - 1 + offset as i64;
    let year: i64 = drop_date.year() as i64 + months / 12;
    let month: u32 = (months % 12 + 1) as u32;
    if year < i32::MIN as i64 || year > i32::MAX as i64 {
        return None;
    }
    Date::from_ymd_opt(year as i32, month, 1)
}

/// The availability requests of one check for a drop date.
pub open spec fn are_month_requests(
    r: Result<Vec<MonthRequest>, AgentError>,
    config: Config,
    drop_date: (int, int, int),
) -> bool {
    match lookup(config.sites@, config.active_site@) {
        None => r == Err::<Vec<MonthRequest>, AgentError>(AgentError::NoActiveSite),
        Some(site) => match lookup_entry(site.museums@, site.preferredslug@) {
            None => r == Err::<Vec<MonthRequest>, AgentError>(AgentError::NoPreferredMuseum),
            Some(entry) => r matches Ok(v) && v@.len() == config.months_to_check && forall|k: int|
                0 <= k < v@.len() ==> is_month_request(
                    #[trigger] v@[k],
                    site,
                    entry.1.museumid@,
                    drop_date,
                    k,
                ),
        },
    }
}

impl Agent {
    /// The booking plan for found slots: fails without an active site or
    /// without a selected credential (in that order); the slots come with
    /// preferred dates first.
    pub fn booking_plan(&self, slots: &Vec<AvailabilitySlot>) -> (r: Result<BookingPlan, AgentError>)
        ensures
            match lookup(self.settings().sites@, self.settings().active_site@) {
                None => r == Err::<BookingPlan, AgentError>(AgentError::NoActiveSite),
                Some(site) => match lookup(
                    self.settings().credentials@,
                    self.settings().selected_credential@,
                ) {
                    None => r == Err::<BookingPlan, AgentError>(AgentError::NoSelectedCredential),
                    Some(cred) => r matches Ok(p) && p.credential == cred && p.success_indicator@
                        == site.successindicator@ && p.dry_run == self.is_dry_run() && slot_views(p.slots@) == preferred_first(
                        string_views(self.settings().preferred_days@),
                        slot_views(slots@),
                    ),
                },
            },
    {
        let site = match self.config.get_active_site() {
            Some(s) => s,
            None => return Err(AgentError::NoActiveSite),
        };
        let credential = match self.config.get_selected_credential() {
            Some(c) => c.duplicate(),
            None => return Err(AgentError::NoSelectedCredential),
        };
        Ok(
            BookingPlan {
                credential,
                success_indicator: site.successindicator.clone(),
                slots: self.preferred_order(slots),
                dry_run: self.dry_run,
            },
        )
    }

    /// The availability requests of one check: one for each of the calendar
    /// months to check, starting with the drop date's. Fails without an
    /// active site or without its preferred museum.
    pub fn availability_requests(&self, drop_date: Date) -> (r: Result<Vec<MonthRequest>, AgentError>)
        ensures
            are_month_requests(r, self.settings(), drop_date@),
    {
        let site = match self.config.get_active_site() {
            Some(s) => s,
            None => return Err(AgentError::NoActiveSite),
        };
        let museum = match self.config.get_preferred_museum() {
            Some((_, m)) => m,
            None => return Err(AgentError::NoPreferredMuseum),
        };
        let months = self.config.months_to_check;
        let mut requests: Vec<MonthRequest> = Vec::new();
        let mut offset: u32 = 0;
        while offset < months
            invariant
                offset <= months,
                months == self.settings().months_to_check,
                lookup(self.settings().sites@, self.settings().active_site@) == Some(*site),
                lookup_entry(site.museums@, site.preferredslug@) matches Some(e) && e.1 == *museum,
                requests@.len() == offset,
                forall|k: int|
                    0 <= k < offset ==> is_month_request(
                        #[trigger] requests@[k],
                        *site,
                        museum.museumid@,
                        drop_date@,
                        k,
                    ),
            decreases months - offset,
        {
            let date = month_date_exec(drop_date, offset);
            let url = match date {
                Some(target) => match Scraper::build_availability_url(
                    site,
                    museum.museumid.as_str(),
                    target,
                ) {
                    Ok(u) => Ok(u),
                    Err(e) => Err(MonthError::Url(e)),
                },
                None => Err(MonthError::DateOutOfRange),
            };
            requests.push(MonthRequest { offset, date, url });
            offset = offset + 1;
        }
        Ok(requests)
    }
}

/// One availability request to make: its month, the date asked for, and
/// its URL.
#[derive(Clone, Debug)]
pub struct MonthFetch {
    pub offset: u32,
    pub date: Date,
    pub url: String,
}

/// What the logic reads of a request to make.
pub open spec fn fetch_view(f: MonthFetch) -> (int, (int, int, int), Seq<char>) {
    (f.offset as int, f.date@, f.url@)
}

/// The views of requests to make.
pub open spec fn fetch_views(v: Seq<MonthFetch>) -> Seq<(int, (int, int, int), Seq<char>)> {
    v.map_values(|f: MonthFetch| fetch_view(f))
}

/// The requests of the first `n` months whose availability URL can be
/// built, in order.
pub open spec fn fetches_upto(
    site: crate::config::Site,
    museum_id: Seq<char>,
    drop_date: (int, int, int),
    n: nat,
) -> Seq<(int, (int, int, int), Seq<char>)>
    decreases n,
{
    if n == 0 {
        Seq::empty()
    } else {
        let prev = fetches_upto(site, museum_id, drop_date, (n - 1) as nat);
        match month_date(drop_date, n - 1) {
            Some(d) => match (
                crate::urls::parsed_url(site.baseurl@),
                crate::scraper::availability_url(site, museum_id, d),
            ) {
                (Some(_), Some(u)) => prev.push((n - 1, d, u)),
                _ => prev,
            },
            None => prev,
        }
    }
}

/// The requests of one check: those of the months to check whose URL can
/// be built; none without an active site or its preferred museum.
pub open spec fn month_fetches(config: Config, drop_date: (int, int, int)) -> Seq<
    (int, (int, int, int), Seq<char>),
> {
    match lookup(config.sites@, config.active_site@) {
        Some(site) => match lookup_entry(site.museums@, site.preferredslug@) {
            Some(e) => fetches_upto(site, e.1.museumid@, drop_date, config.months_to_check as nat),
            None => Seq::empty(),
        },
        None => Seq::empty(),
    }
}

/// The views of fetched pages.
pub open spec fn page_views(v: Seq<Option<String>>) -> Seq<Option<Seq<char>>> {
    v.map_values(|p: Option<String>| crate::html::opt_view(p))
}

/// The slots a fetched page gives: `None` where it was not fetched, there
/// is no active site, or the page cannot be read.
pub open spec fn page_result(page: Option<Seq<char>>, site: Option<crate::config::Site>) -> Option<
    Seq<(Seq<char>, Seq<char>)>,
> {
    match (page, site) {
        (Some(h), Some(s)) => page_slots(h, s),
        _ => None,
    }
}

/// The slots of the first `n` fetched pages, in order.
pub open spec fn fetched_slots(
    pages: Seq<Option<Seq<char>>>,
    site: Option<crate::config::Site>,
    n: nat,
) -> Seq<(Seq<char>, Seq<char>)>
    decreases n,
{
    if n == 0 {
        Seq::empty()
    } else {
        fetched_slots(pages, site, (n - 1) as nat) + match page_result(pages[n - 1], site) {
            Some(v) => v,
            None => Seq::empty(),
        }
    }
}

/// The dates asked for of the first `n` pages that were read and hold no
/// slot, in order.
pub open spec fn empty_month_dates(
    pages: Seq<Option<Seq<char>>>,
    fetches: Seq<(int, (int, int, int), Seq<char>)>,
    site: Option<crate::config::Site>,
    n: nat,
) -> Seq<Seq<char>>
    decreases n,
{
    if n == 0 {
        Seq::empty()
    } else {
        let prev = empty_month_dates(pages, fetches, site, (n - 1) as nat);
        if page_result(pages[n - 1], site) == Some(Seq::<(Seq<char>, Seq<char>)>::empty()) {
            prev.push(crate::calendar::date_text(fetches[n - 1].1))
        } else {
            prev
        }
    }
}

/// The dates asked for of the first `n` pages that were read with the
/// relaxed selector (every link), in order.
pub open spec fn relaxed_month_dates(
    pages: Seq<Option<Seq<char>>>,
    fetches: Seq<(int, (int, int, int), Seq<char>)>,
    site: Option<crate::config::Site>,
    n: nat,
) -> Seq<Seq<char>>
    decreases n,
{
    if n == 0 {
        Seq::empty()
    } else {
        let prev = relaxed_month_dates(pages, fetches, site, (n - 1) as nat);
        match (pages[n - 1], site) {
            (Some(h), Some(s)) => if page_slots(h, s) is Some && crate::scraper::relaxed_selector_used(
                h,
                s,
            ) {
                prev.push(crate::calendar::date_text(fetches[n - 1].1))
            } else {
                prev
            },
            _ => prev,
        }
    }
}

impl Agent {
    /// The requests of one check for a drop date: one per month to check
    /// whose availability URL can be built, in order.
    pub fn month_fetches(&self, drop_date: Date) -> (r: Vec<MonthFetch>)
        ensures
            fetch_views(r@) == month_fetches(self.settings(), drop_date@),
    {
        let mut out: Vec<MonthFetch> = Vec::new();
        assert(fetch_views(out@) =~= Seq::<(int, (int, int, int), Seq<char>)>::empty());
        match self.availability_requests(drop_date) {
            Ok(reqs) => {
                let ghost site = lookup(self.settings().sites@, self.settings().active_site@).unwrap();
                let ghost mid = lookup_entry(site.museums@, site.preferredslug@).unwrap().1.museumid@;
                let mut i: usize = 0;
                while i < reqs.len()
                    invariant
                        i <= reqs@.len(),
                        reqs@.len() == self.settings().months_to_check,
                        lookup(self.settings().sites@, self.settings().active_site@) == Some(site),
                        lookup_entry(site.museums@, site.preferredslug@) matches Some(e)
                            && e.1.museumid@ == mid,
                        forall|k: int|
                            0 <= k < reqs@.len() ==> is_month_request(
                                #[trigger] reqs@[k],
                                site,
                                mid,
                                drop_date@,
                                k,
                            ),
                        fetch_views(out@) == fetches_upto(site, mid, drop_date@, i as nat),
                    decreases reqs@.len() - i,
                {
                    let req = &reqs[i];
                    assert(is_month_request(*req, site, mid, drop_date@, i as int));
                    let ghost prev = fetch_views(out@);
                    match (&req.date, &req.url) {
                        (Some(d), Ok(u)) => {
                            out.push(MonthFetch { offset: req.offset, date: *d, url: u.clone() });
                            assert(fetch_views(out@) =~= prev.push(
                                (i as int, d@, u@),
                            ));
                        },
                        _ => {},
                    }
                    i = i + 1;
                }
            },
            Err(_) => {},
        }
        out
    }

    /// The slots and the empty months of one check's pages: `pages[k]` is
    /// the page fetched for `fetches[k]`, `None` where the fetch failed.
    /// Pages that cannot be read are skipped.
    pub fn check_results(&self, fetches: &Vec<MonthFetch>, pages: &Vec<Option<String>>) -> (r: (
        Vec<AvailabilitySlot>,
        Vec<String>,
        Vec<String>,
    ))
        requires
            pages@.len() == fetches@.len(),
        ensures
            slot_views(r.0@) == fetched_slots(
                page_views(pages@),
                lookup(self.settings().sites@, self.settings().active_site@),
                pages@.len() as nat,
            ),
            string_views(r.1@) == empty_month_dates(
                page_views(pages@),
                fetch_views(fetches@),
                lookup(self.settings().sites@, self.settings().active_site@),
                pages@.len() as nat,
            ),
            string_views(r.2@) == relaxed_month_dates(
                page_views(pages@),
                fetch_views(fetches@),
                lookup(self.settings().sites@, self.settings().active_site@),
                pages@.len() as nat,
            ),
    {
        let ghost site = lookup(self.settings().sites@, self.settings().active_site@);
        let ghost pv = page_views(pages@);
        let ghost fv = fetch_views(fetches@);
        let active = self.config.get_active_site();
        let mut slots: Vec<AvailabilitySlot> = Vec::new();
        let mut empty: Vec<String> = Vec::new();
        let mut relaxed: Vec<String> = Vec::new();
        assert(slot_views(slots@) =~= Seq::<(Seq<char>, Seq<char>)>::empty());
        assert(string_views(empty@) =~= Seq::<Seq<char>>::empty());
        assert(string_views(relaxed@) =~= Seq::<Seq<char>>::empty());
        let mut i: usize = 0;
        while i < pages.len()
            invariant
                i <= pages@.len(),
                pages@.len() == fetches@.len(),
                pv == page_views(pages@),
                fv == fetch_views(fetches@),
                site == lookup(self.settings().sites@, self.settings().active_site@),
                match site {
                    Some(x) => active matches Some(a) && *a == x,
                    None => active is None,
                },
                slot_views(slots@) == fetched_slots(pv, site, i as nat),
                string_views(empty@) == empty_month_dates(pv, fv, site, i as nat),
                string_views(relaxed@) == relaxed_month_dates(pv, fv, site, i as nat),
            decreases pages@.len() - i,
        {
            assert(pv[i as int] == crate::html::opt_view(pages@[i as int]));
            let ghost prev_slots = slot_views(slots@);
            let ghost prev_empty = string_views(empty@);
            let ghost prev_relaxed = string_views(relaxed@);
            match (&pages[i], active) {
                (Some(html), Some(s)) => {
                    match availability_slots(html.as_str(), s) {
                        Ok((mut found, loose)) => {
                            if loose {
                                let text = fetches[i].date.to_iso_string();
                                assert(fv[i as int] == fetch_view(fetches@[i as int]));
                                relaxed.push(text);
                                assert(string_views(relaxed@) =~= prev_relaxed.push(text@));
                            }
                            if found.len() == 0 {
                                assert(slot_views(found@) =~= Seq::<(Seq<char>, Seq<char>)>::empty());
                                let text = fetches[i].date.to_iso_string();
                                assert(fv[i as int] == fetch_view(fetches@[i as int]));
                                empty.push(text);
                                assert(string_views(empty@) =~= prev_empty.push(text@));
                            }
                            let ghost fs = slot_views(found@);
                            slots.append(&mut found);
                            assert(slot_views(slots@) =~= prev_slots + fs);
                        },
                        Err(_) => {},
                    }
                },
                _ => {},
            }
            i = i + 1;
        }
        (slots, empty, relaxed)
    }
}

/// Law: ordering slots by preference loses and adds none: the reordered
/// slots are the same slots, each as often as before.
pub proof fn law_preferred_first_is_permutation(
    days: Seq<Seq<char>>,
    slots: Seq<(Seq<char>, Seq<char>)>,
)
    ensures
        preferred_first(days, slots).to_multiset() == slots.to_multiset(),
        preferred_first(days, slots).len() == slots.len(),
    decreases slots.len(),
{
    broadcast use vstd::seq_lib::group_seq_properties;
    broadcast use vstd::multiset::group_multiset_axioms;

    if slots.len() > 0 {
        let init = slots.drop_last();
        law_preferred_first_is_permutation(days, init);
        let t = slots_by_preference(days, init, true);
        let f = slots_by_preference(days, init, false);
        let x = slots.last();
        assert(slots =~= init.push(x));
        vstd::seq_lib::lemma_multiset_commutative(t, f);
        vstd::seq_lib::to_multiset_build(init, x);
        if preferred_date(days, x.0) {
            assert(preferred_first(days, slots) =~= t.push(x) + f);
            vstd::seq_lib::lemma_multiset_commutative(t.push(x), f);
            vstd::seq_lib::to_multiset_build(t, x);
        } else {
            assert(preferred_first(days, slots) =~= (t + f).push(x));
            vstd::seq_lib::to_multiset_build(t + f, x);
        }
        assert(preferred_first(days, slots).to_multiset() =~= slots.to_multiset());
    }
}

/// The slots of found days: each day's `%Y-%m-%d` date and booking URL.
pub open spec fn slots_of_days(days: Seq<crate::scraper::AvailabilityView>) -> Seq<
    (Seq<char>, Seq<char>),
> {
    days.map_values(|a: crate::scraper::AvailabilityView| (crate::calendar::date_text(a.0), a.1))
}

/// The slots an availability page gives: `None` where the page cannot be
/// read (invalid selector, base URL that does not parse, or a booking link
/// that does not resolve).
pub open spec fn page_slots(html: Seq<char>, site: crate::config::Site) -> Option<
    Seq<(Seq<char>, Seq<char>)>,
> {
    match crate::scraper::booking_links(html, site) {
        Some(es) => if crate::urls::parsed_url(site.baseurl@) is Some {
            match links_availability(es, site.baseurl@) {
                Ok(days) => Some(slots_of_days(days)),
                Err(_) => None,
            }
        } else {
            None
        },
        None => None,
    }
}

/// The bookable slots on an availability page of a site.
/// The second part of the result tells whether the site's selector matched
/// nothing, so that every link was read instead.
pub fn availability_slots(html: &str, site: &crate::config::Site) -> (r: Result<
    (Vec<AvailabilitySlot>, bool),
    ScrapeError,
>)
    ensures
        match page_slots(html@, *site) {
            Some(v) => r matches Ok(x) && slot_views(x.0@) == v && x.1
                == crate::scraper::relaxed_selector_used(html@, *site),
            None => r is Err,
        },
{
    match Scraper::parse_availability_reporting(html, site) {
        Ok((days, relaxed)) => {
            let ghost dv = availability_views(days@);
            let mut slots: Vec<AvailabilitySlot> = Vec::new();
            let mut i: usize = 0;
            while i < days.len()
                invariant
                    i <= days@.len(),
                    dv == availability_views(days@),
                    slot_views(slots@) == slots_of_days(dv.take(i as int)),
                decreases days@.len() - i,
            {
                let day = &days[i];
                let ghost prev = slot_views(slots@);
                slots.push(
                    AvailabilitySlot { date: day.date.to_iso_string(), booking_url: day.booking_url.clone() },
                );
                proof {
                    assert(slot_views(slots@) =~= prev.push(
                        (crate::calendar::date_text(day.date@), day.booking_url@),
                    ));
                    assert(dv.take(i + 1) =~= dv.take(i as int).push(dv[i as int]));
                    assert(slots_of_days(dv.take(i + 1)) =~= slots_of_days(dv.take(i as int)).push(
                        (crate::calendar::date_text(dv[i as int].0), dv[i as int].1),
                    ));
                }
                i = i + 1;
            }
            assert(dv.take(days@.len() as int) =~= dv);
            assert(slots_of_days(dv) == slot_views(slots@));
            Ok((slots, relaxed))
        },
        Err(e) => Err(e),
    }
}

} // verus!
