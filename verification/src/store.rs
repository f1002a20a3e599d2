//! The names that were given out: how they are added, found, and removed when they expire.
use std::sync::Arc;
use std::time::Duration;

use vstd::prelude::*;
use vstd::utf8::decode_utf8;
use vstd::utf8::encode_utf8;
use vstd::utf8::valid_utf8;

use crate::clock::duration_nanos;
use crate::clock::duration_secs;
use crate::clock::duration_span;
use crate::clock::earlier;
use crate::clock::longest_span;
use crate::clock::time_after;
use crate::clock::too_long_message;
use crate::clock::valid_reading;
use crate::clock::Sum;
use crate::clock::Timestamp;
use crate::clock::TimestampView;
use crate::clock::LAST_SECOND;
use crate::idprov::ProviderManager;
use crate::outside::clock_showed;
use crate::task::listing;
use crate::task::pairs;
use crate::task::time_view;
use crate::task::Action;
use crate::task::ActionView;
use crate::task::Entry;
use crate::task::EntryView;
use crate::task::Event;
use crate::task::EventView;
use crate::task::Goal;
use crate::task::GoalView;
use crate::task::Outcome;
use crate::task::OutcomeView;
use crate::task::ResolvedEntry;
use crate::task::ResolvedView;
use crate::task::StoreError;
use crate::task::StoreFault;
use crate::task::Task;
use crate::task::TaskView;
use crate::text::push_text;
use crate::text::text_from_utf8;
use crate::text::utf8_error_text;

verus! {

/// How many ids are tried for a new name.
pub const MAX_ATTEMPTS: u8 = 100;

/// The domain of the store, and how long its names live.
#[verifier::ext_equal]
pub struct StoreView {
    pub domain: Seq<char>,
    pub ttl: Duration,
}

/// A task and what it asks for.
pub type Step = (TaskView, ActionView);

/// The key of an id in the database.
pub open spec fn key_of(id: Seq<char>) -> Seq<u8> {
    encode_utf8(id)
}

/// An entry with its id and the full name: the id, a dot and the domain.
pub open spec fn resolved(domain: Seq<char>, id: Seq<char>, entry: EntryView) -> ResolvedView {
    ResolvedView { id, dns_name: id + "."@ + domain, entry }
}

/// The task ends with `outcome`.
pub open spec fn ends(outcome: OutcomeView) -> Step {
    (TaskView::Ended, ActionView::Return(outcome))
}

/// What follows a lookup that found an entry.
pub open spec fn after_found(
    domain: Seq<char>,
    goal: GoalView,
    id: Seq<char>,
    entry: EntryView,
) -> Step {
    match goal {
        GoalView::Entry => ends(OutcomeView::Entry(Some(entry))),
        GoalView::Ip => ends(OutcomeView::Resolved(Some(resolved(domain, id, entry)))),
        GoalView::Add(_) => ends(OutcomeView::Added(resolved(domain, id, entry))),
    }
}

/// What follows a lookup that found nothing: a name that is to be added needs an id.
pub open spec fn after_missing(goal: GoalView) -> Step {
    match goal {
        GoalView::Entry => ends(OutcomeView::Entry(None)),
        GoalView::Ip => ends(OutcomeView::Resolved(None)),
        GoalView::Add(ip) => (TaskView::PickId { ip, tries: 0 }, ActionView::NewId),
    }
}

/// What follows when an id turned out to be taken or free. The last of the attempts fails.
pub open spec fn after_present(ip: Seq<u8>, id: Seq<char>, tries: u8, present: bool) -> Step {
    if !present {
        (TaskView::StampEntry { ip, id }, ActionView::ReadClock)
    } else if tries + 1 < MAX_ATTEMPTS {
        (TaskView::PickId { ip, tries: (tries + 1) as u8 }, ActionView::NewId)
    } else {
        ends(OutcomeView::Failed(StoreFault::NoFreeId))
    }
}

/// What follows when the time of a new entry is known: it expires after the time to live.
pub open spec fn after_stamp(
    ttl: Duration,
    ip: Seq<u8>,
    id: Seq<char>,
    now: TimestampView,
) -> Step {
    let expires = time_after(now, duration_span(ttl));
    let entry = EntryView { expires, value: ip };
    if duration_span(ttl) > longest_span() {
        ends(OutcomeView::Failed(StoreFault::TtlTooLong(too_long_message())))
    } else if expires.secs > LAST_SECOND {
        ends(OutcomeView::OutOfCalendar)
    } else {
        (TaskView::SaveEntry { id, entry }, ActionView::Put { key: key_of(id), entry })
    }
}

/// The keys and addresses of the entries that expired before `now`.
pub open spec fn expired(
    entries: Seq<(Seq<u8>, EntryView)>,
    now: TimestampView,
) -> Seq<(Seq<u8>, Seq<u8>)>
    decreases entries.len(),
{
    if entries.len() == 0 {
        seq![]
    } else if earlier(entries[0].1.expires, now) {
        seq![(entries[0].0, entries[0].1.value)] + expired(entries.drop_first(), now)
    } else {
        expired(entries.drop_first(), now)
    }
}

/// What follows when these expired entries are left to be removed.
pub open spec fn after_cleaning(left: Seq<(Seq<u8>, Seq<u8>)>) -> Step {
    if left.len() == 0 {
        (TaskView::CleanSync, ActionView::Flush)
    } else {
        (TaskView::CleanEntry { left }, ActionView::RemoveEntry(left[0].0))
    }
}

/// The latest expiration of the entries.
pub open spec fn latest(entries: Seq<(Seq<u8>, EntryView)>) -> Option<TimestampView>
    decreases entries.len(),
{
    if entries.len() == 0 {
        None
    } else {
        let last = entries.last().1.expires;
        match latest(entries.drop_last()) {
            None => Some(last),
            Some(t) => Some(
                if earlier(t, last) {
                    last
                } else {
                    t
                },
            ),
        }
    }
}

/// The event is one that the task waits for.
pub open spec fn expects(task: TaskView, event: EventView) -> bool {
    match event {
        EventView::Found(_) => task is LookupEntry,
        EventView::FoundId(_) => task is LookupId,
        EventView::Present(_) => task is CheckId,
        EventView::Done => {
            ||| task is DropEntry
            ||| task is DropId
            ||| task is SaveEntry
            ||| task is Sync
            ||| task is CleanSync
            ||| (task matches TaskView::CleanEntry { left } && left.len() > 0)
            ||| (task matches TaskView::CleanId { left } && left.len() > 0)
        },
        EventView::Entries(_) => task is CleanScan || task is LatestScan,
        EventView::Failed(_) => !(task is CheckEntry || task is PickId || task is StampEntry
            || task is CleanClock || task is Ended),
        EventView::Now(_) => task is CheckEntry || task is StampEntry || task is CleanClock,
        EventView::Fresh(_) => task is PickId,
    }
}

/// What a task does next after an event that it waits for.
pub open spec fn next(store: StoreView, task: TaskView, event: EventView) -> Step {
    match (task, event) {
        (_, EventView::Failed(message)) => ends(
            OutcomeView::Failed(StoreFault::Database(message)),
        ),
        (TaskView::LookupId { goal }, EventView::FoundId(None)) => after_missing(goal),
        (TaskView::LookupId { goal }, EventView::FoundId(Some(key))) => if valid_utf8(key) {
            let id = decode_utf8(key);
            (TaskView::LookupEntry { id, goal }, ActionView::GetEntry(key_of(id)))
        } else {
            ends(OutcomeView::Failed(StoreFault::BadId(utf8_error_text(key))))
        },
        (TaskView::LookupEntry { id, goal }, EventView::Found(None)) => after_missing(goal),
        (TaskView::LookupEntry { id, goal }, EventView::Found(Some(entry))) => (
            TaskView::CheckEntry { id, entry, goal },
            ActionView::ReadClock,
        ),
        (TaskView::CheckEntry { id, entry, goal }, EventView::Now(now)) => if earlier(
            entry.expires,
            now,
        ) {
            (
                TaskView::DropEntry { value: entry.value, goal },
                ActionView::RemoveEntry(key_of(id)),
            )
        } else {
            after_found(store.domain, goal, id, entry)
        },
        (TaskView::DropEntry { value, goal }, EventView::Done) => (
            TaskView::DropId { goal },
            ActionView::RemoveId(value),
        ),
        (TaskView::DropId { goal }, EventView::Done) => after_missing(goal),
        (TaskView::PickId { ip, tries }, EventView::Fresh(id)) => (
            TaskView::CheckId { ip, id, tries },
            ActionView::HasEntry(key_of(id)),
        ),
        (TaskView::CheckId { ip, id, tries }, EventView::Present(present)) => after_present(
            ip,
            id,
            tries,
            present,
        ),
        (TaskView::StampEntry { ip, id }, EventView::Now(now)) => after_stamp(
            store.ttl,
            ip,
            id,
            now,
        ),
        (TaskView::SaveEntry { id, entry }, EventView::Done) => (
            TaskView::Sync { id, entry },
            ActionView::Flush,
        ),
        (TaskView::Sync { id, entry }, EventView::Done) => ends(
            OutcomeView::Added(resolved(store.domain, id, entry)),
        ),
        (TaskView::CleanClock, EventView::Now(now)) => (
            TaskView::CleanScan { now },
            ActionView::Scan,
        ),
        (TaskView::CleanScan { now }, EventView::Entries(entries)) => after_cleaning(
            expired(entries, now),
        ),
        (TaskView::CleanEntry { left }, EventView::Done) => (
            TaskView::CleanId { left },
            ActionView::RemoveId(left[0].1),
        ),
        (TaskView::CleanId { left }, EventView::Done) => after_cleaning(left.drop_first()),
        (TaskView::CleanSync, EventView::Done) => ends(OutcomeView::Cleaned),
        (TaskView::LatestScan, EventView::Entries(entries)) => ends(
            OutcomeView::Latest(latest(entries)),
        ),
        _ => arbitrary(),
    }
}

/// How long to wait between two cleanups: 60 hours.
pub fn cleanup_interval() -> (r: Duration)
    ensures
        duration_secs(r) == 60 * 3600,
        duration_nanos(r) == 0,
{
    Duration::from_secs(60 * 3600)
}

/// Gives out names under a domain, each for a time.
pub struct Store {
    domain: String,
    ttl: Duration,
    provider: Arc<ProviderManager>,
}

impl View for Store {
    type V = StoreView;

    closed spec fn view(&self) -> StoreView {
        StoreView { domain: self.domain@, ttl: self.ttl }
    }
}

fn key_for(id: &str) -> (r: Vec<u8>)
    ensures
        r@ == key_of(id@),
{
    vstd::slice::slice_to_vec(id.as_bytes())
}

fn finish(outcome: Outcome) -> (r: (Task, Action))
    ensures
        (r.0@, r.1@) == ends(outcome@),
{
    (Task::Ended, Action::Return(outcome))
}

fn missing(goal: Goal) -> (r: (Task, Action))
    ensures
        (r.0@, r.1@) == after_missing(goal@),
{
    match goal {
        Goal::Entry => finish(Outcome::Entry(None)),
        Goal::Ip => finish(Outcome::Resolved(None)),
        Goal::Add(ip) => (Task::PickId { ip, tries: 0 }, Action::NewId),
    }
}

fn checked(ip: [u8; 16], id: String, tries: u8, present: bool) -> (r: (Task, Action))
    ensures
        (r.0@, r.1@) == after_present(ip@, id@, tries, present),
{
    if !present {
        (Task::StampEntry { ip, id }, Action::ReadClock)
    } else if tries < MAX_ATTEMPTS - 1 {
        (Task::PickId { ip, tries: tries + 1 }, Action::NewId)
    } else {
        finish(Outcome::Failed(StoreError::NoFreeId))
    }
}

/// The expired entries, the one to be removed first at the end.
fn find_expired(entries: &[(Vec<u8>, Entry)], now: &Timestamp) -> (r: Vec<(Vec<u8>, [u8; 16])>)
    ensures
        pairs(r@).reverse() == expired(listing(entries@), now@),
{
    let mut r: Vec<(Vec<u8>, [u8; 16])> = Vec::new();
    let ghost all = listing(entries@);
    let mut i: usize = entries.len();
    assert(pairs(r@).reverse() =~= expired(all.skip(i as int), now@));
    while i > 0
        invariant
            i <= entries@.len(),
            all == listing(entries@),
            pairs(r@).reverse() == expired(all.skip(i as int), now@),
        decreases i,
    {
        i -= 1;
        let ghost before = r@;
        let entry: &(Vec<u8>, Entry) = &entries[i];
        assert(all.skip(i as int).drop_first() =~= all.skip(i + 1));
        assert(all.skip(i as int)[0] == (entry.0@, entry.1@));
        if entry.1.expires.before(now) {
            r.push((vstd::slice::slice_to_vec(entry.0.as_slice()), entry.1.value));
            assert(pairs(r@).reverse() =~= seq![(entry.0@, entry.1@.value)] + pairs(
                before,
            ).reverse());
        }
    }
    assert(all.skip(0) =~= all);
    r
}

fn clean(left: Vec<(Vec<u8>, [u8; 16])>) -> (r: (Task, Action))
    ensures
        (r.0@, r.1@) == after_cleaning(pairs(left@).reverse()),
{
    if left.len() == 0 {
        (Task::CleanSync, Action::Flush)
    } else {
        let key: Vec<u8> = vstd::slice::slice_to_vec(left[left.len() - 1].0.as_slice());
        (Task::CleanEntry { left }, Action::RemoveEntry(key))
    }
}

fn find_latest(entries: &[(Vec<u8>, Entry)]) -> (r: Option<Timestamp>)
    ensures
        time_view(r) == latest(listing(entries@)),
{
    let mut r: Option<Timestamp> = None;
    let ghost all = listing(entries@);
    let mut i: usize = 0;
    while i < entries.len()
        invariant
            i <= entries@.len(),
            all == listing(entries@),
            time_view(r) == latest(all.take(i as int)),
        decreases entries.len() - i,
    {
        let expires: Timestamp = entries[i].1.expires;
        proof {
            let next = all.take(i + 1);
            assert(next.drop_last() =~= all.take(i as int));
            assert(next.last().1.expires == expires@);
        }
        r = match r {
            Some(t) => if t.before(&expires) {
                Some(expires)
            } else {
                Some(t)
            },
            None => Some(expires),
        };
        i += 1;
    }
    assert(all.take(i as int) =~= all);
    r
}

impl Store {
    /// The store may generate `id` for a new name.
    pub closed spec fn offers(&self, id: Seq<char>) -> bool {
        self.provider.offers(id)
    }

    /// The domain under which names are given out.
    pub fn domain(&self) -> (r: &str)
        ensures
            r@ == self@.domain,
    {
        self.domain.as_str()
    }

    /// How long a name lives.
    pub fn ttl(&self) -> (r: Duration)
        ensures
            r == self@.ttl,
    {
        self.ttl
    }

    fn full_entry(&self, id: String, entry: Entry) -> (r: ResolvedEntry)
        ensures
            r@ == resolved(self@.domain, id@, entry@),
    {
        let mut dns_name = String::new();
        push_text(&mut dns_name, id.as_str());
        push_text(&mut dns_name, ".");
        push_text(&mut dns_name, self.domain.as_str());
        assert(dns_name@ =~= id@ + "."@ + self.domain@);
        ResolvedEntry { id, dns_name, entry }
    }

    fn found(&self, goal: Goal, id: String, entry: Entry) -> (r: (Task, Action))
        ensures
            (r.0@, r.1@) == after_found(self@.domain, goal@, id@, entry@),
    {
        match goal {
            Goal::Entry => finish(Outcome::Entry(Some(entry))),
            Goal::Ip => finish(Outcome::Resolved(Some(self.full_entry(id, entry)))),
            Goal::Add(_) => finish(Outcome::Added(self.full_entry(id, entry))),
        }
    }

    fn stamped(&self, ip: [u8; 16], id: String, now: Timestamp) -> (r: (Task, Action))
        ensures
            (r.0@, r.1@) == after_stamp(self@.ttl, ip@, id@, now@),
    {
        match now.plus(self.ttl) {
            Sum::At(expires) => {
                let entry = Entry { expires, value: ip };
                let key: Vec<u8> = key_for(id.as_str());
                (Task::SaveEntry { id, entry }, Action::Put { key, entry })
            },
            Sum::TooLong(message) => finish(Outcome::Failed(StoreError::TtlTooLong(message))),
            Sum::OutOfCalendar => finish(Outcome::OutOfCalendar),
        }
    }

    /// Takes a task one step on.
    pub fn step(&self, task: Task, event: Event) -> (r: (Task, Action))
        requires
            expects(task@, event@),
        ensures
            (r.0@, r.1@) == next(self@, task@, event@),
    {
        match (task, event) {
            (_, Event::Failed(message)) => finish(Outcome::Failed(StoreError::Database(message))),
            (Task::LookupId { goal }, Event::FoundId(None)) => missing(goal),
            (Task::LookupId { goal }, Event::FoundId(Some(key))) => {
                match text_from_utf8(key) {
                    Ok(id) => {
                        let key: Vec<u8> = key_for(id.as_str());
                        (Task::LookupEntry { id, goal }, Action::GetEntry(key))
                    },
                    Err(message) => finish(Outcome::Failed(StoreError::BadId(message))),
                }
            },
            (Task::LookupEntry { id, goal }, Event::Found(None)) => missing(goal),
            (Task::LookupEntry { id, goal }, Event::Found(Some(entry))) => (
                Task::CheckEntry { id, entry, goal },
                Action::ReadClock,
            ),
            (Task::CheckEntry { id, entry, goal }, Event::Now(now)) => {
                if entry.expires.before(&now) {
                    let key: Vec<u8> = key_for(id.as_str());
                    (Task::DropEntry { value: entry.value, goal }, Action::RemoveEntry(key))
                } else {
                    self.found(goal, id, entry)
                }
            },
            (Task::DropEntry { value, goal }, Event::Done) => (
                Task::DropId { goal },
                Action::RemoveId(value),
            ),
            (Task::DropId { goal }, Event::Done) => missing(goal),
            (Task::PickId { ip, tries }, Event::Fresh(id)) => {
                let key: Vec<u8> = key_for(id.as_str());
                (Task::CheckId { ip, id, tries }, Action::HasEntry(key))
            },
            (Task::CheckId { ip, id, tries }, Event::Present(present)) => checked(
                ip,
                id,
                tries,
                present,
            ),
            (Task::StampEntry { ip, id }, Event::Now(now)) => self.stamped(ip, id, now),
            (Task::SaveEntry { id, entry }, Event::Done) => (
                Task::Sync { id, entry },
                Action::Flush,
            ),
            (Task::Sync { id, entry }, Event::Done) => finish(
                Outcome::Added(self.full_entry(id, entry)),
            ),
            (Task::CleanClock, Event::Now(now)) => (Task::CleanScan { now }, Action::Scan),
            (Task::CleanScan { now }, Event::Entries(entries)) => clean(
                find_expired(entries.as_slice(), &now),
            ),
            (Task::CleanEntry { left }, Event::Done) => {
                let ip: [u8; 16] = left[left.len() - 1].1;
                (Task::CleanId { left }, Action::RemoveId(ip))
            },
            (Task::CleanId { left }, Event::Done) => {
                let mut left = left;
                let ghost all = left@;
                let _ = left.pop();
                assert(pairs(left@).reverse() =~= pairs(all).reverse().drop_first());
                clean(left)
            },
            (Task::CleanSync, Event::Done) => finish(Outcome::Cleaned),
            (Task::LatestScan, Event::Entries(entries)) => finish(
                Outcome::Latest(find_latest(entries.as_slice())),
            ),
            _ => unreached(),
        }
    }

    /// Whether the task waits for the event.
    pub fn waits_for(task: &Task, event: &Event) -> (r: bool)
        ensures
            r == expects(task@, event@),
    {
        match (task, event) {
            (Task::LookupEntry { .. }, Event::Found(_)) => true,
            (Task::LookupId { .. }, Event::FoundId(_)) => true,
            (Task::CheckId { .. }, Event::Present(_)) => true,
            (Task::DropEntry { .. }, Event::Done) => true,
            (Task::DropId { .. }, Event::Done) => true,
            (Task::SaveEntry { .. }, Event::Done) => true,
            (Task::Sync { .. }, Event::Done) => true,
            (Task::CleanSync, Event::Done) => true,
            (Task::CleanEntry { left }, Event::Done) => left.len() > 0,
            (Task::CleanId { left }, Event::Done) => left.len() > 0,
            (Task::CleanScan { .. }, Event::Entries(_)) => true,
            (Task::LatestScan, Event::Entries(_)) => true,
            (Task::CheckEntry { .. }, Event::Failed(_)) => false,
            (Task::PickId { .. }, Event::Failed(_)) => false,
            (Task::StampEntry { .. }, Event::Failed(_)) => false,
            (Task::CleanClock, Event::Failed(_)) => false,
            (Task::Ended, Event::Failed(_)) => false,
            (_, Event::Failed(_)) => true,
            (Task::CheckEntry { .. }, Event::Now(_)) => true,
            (Task::StampEntry { .. }, Event::Now(_)) => true,
            (Task::CleanClock, Event::Now(_)) => true,
            (Task::PickId { .. }, Event::Fresh(_)) => true,
            _ => false,
        }
    }

    /// The step `to` comes from `from` by reading the clock or generating an id, where `from`
    /// asks for that, and is the same otherwise.
    pub open spec fn settles(&self, from: Step, to: Step) -> bool {
        match from.1 {
            ActionView::ReadClock => exists|now: TimestampView| #[trigger]
                clock_showed(now) && valid_reading(now) && to == next(
                    self@,
                    from.0,
                    EventView::Now(now),
                ),
            ActionView::NewId => exists|id: Seq<char>| #[trigger]
                self.offers(id) && to == next(self@, from.0, EventView::Fresh(id)),
            _ => to == from,
        }
    }

    /// Reads the clock or generates an id where the step asks for that.
    fn settle(&self, task: Task, action: Action) -> (r: (Task, Action))
        requires
            action@ is ReadClock ==> (task@ is CheckEntry || task@ is StampEntry
                || task@ is CleanClock),
            action@ is NewId ==> task@ is PickId,
        ensures
            self.settles((task@, action@), (r.0@, r.1@)),
            !(r.1@ is ReadClock) && !(r.1@ is NewId),
    {
        match action {
            Action::ReadClock => {
                let now: Timestamp = Timestamp::now();
                assert(clock_showed(now@));
                self.step(task, Event::Now(now))
            },
            Action::NewId => {
                let id: String = self.provider.generate();
                assert(self.offers(id@));
                self.step(task, Event::Fresh(id))
            },
            action => (task, action),
        }
    }

    /// Takes a task on until it asks for something of the database or ends.
    pub fn advance(&self, task: Task, event: Event) -> (r: (Task, Action))
        requires
            expects(task@, event@),
        ensures
            self.settles(next(self@, task@, event@), (r.0@, r.1@)),
            !(r.1@ is ReadClock) && !(r.1@ is NewId),
    {
        let (task, action) = self.step(task, event);
        self.settle(task, action)
    }

    /// Opens the store, which begins with a cleanup.
    pub fn open(domain: String, ttl: Duration, provider: Arc<ProviderManager>) -> (r: (
        Store,
        Task,
        Action,
    ))
        ensures
            r.0@ == (StoreView { domain: domain@, ttl }),
            forall|id: Seq<char>| #[trigger] r.0.offers(id) == provider.offers(id),
            r.0.settles(start_cleanup(), (r.1@, r.2@)),
            r.2@ is Scan,
    {
        let store = Store { domain, ttl, provider };
        let (task, action) = store.cleanup_expired();
        (store, task, action)
    }

    /// Begins to remove the entries that have expired.
    pub fn cleanup_expired(&self) -> (r: (Task, Action))
        ensures
            self.settles(start_cleanup(), (r.0@, r.1@)),
            r.1@ is Scan,
    {
        self.settle(Task::CleanClock, Action::ReadClock)
    }

    /// Begins to add a name for an address. An address that has a name keeps it.
    pub fn add_entry(&self, ip: [u8; 16]) -> (r: (Task, Action))
        ensures
            (r.0@, r.1@) == start_add(ip@),
    {
        (Task::LookupId { goal: Goal::Add(ip) }, Action::GetId(ip))
    }

    /// Begins to look up the entry of an id.
    pub fn resolve_entry(&self, id: &str) -> (r: (Task, Action))
        ensures
            (r.0@, r.1@) == start_resolve(id@),
    {
        (
            Task::LookupEntry { id: id.to_string(), goal: Goal::Entry },
            Action::GetEntry(key_for(id)),
        )
    }

    /// Begins to look up the name of an address.
    pub fn resolve_ip(&self, ip: [u8; 16]) -> (r: (Task, Action))
        ensures
            (r.0@, r.1@) == start_resolve_ip(ip@),
    {
        (Task::LookupId { goal: Goal::Ip }, Action::GetId(ip))
    }

    /// Begins to find the latest expiration of all entries.
    pub fn get_latest_expiration(&self) -> (r: (Task, Action))
        ensures
            (r.0@, r.1@) == start_latest(),
    {
        (Task::LatestScan, Action::Scan)
    }
}

/// The first step of a cleanup.
pub open spec fn start_cleanup() -> Step {
    (TaskView::CleanClock, ActionView::ReadClock)
}

/// The first step to add a name for an address.
pub open spec fn start_add(ip: Seq<u8>) -> Step {
    (TaskView::LookupId { goal: GoalView::Add(ip) }, ActionView::GetId(ip))
}

/// The first step to look up the entry of an id.
pub open spec fn start_resolve(id: Seq<char>) -> Step {
    (TaskView::LookupEntry { id, goal: GoalView::Entry }, ActionView::GetEntry(key_of(id)))
}

/// The first step to look up the name of an address.
pub open spec fn start_resolve_ip(ip: Seq<u8>) -> Step {
    (TaskView::LookupId { goal: GoalView::Ip }, ActionView::GetId(ip))
}

/// The first step to find the latest expiration.
pub open spec fn start_latest() -> Step {
    (TaskView::LatestScan, ActionView::Scan)
}

} // verus!
