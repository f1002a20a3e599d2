//! What the store keeps, and the tasks in which it works on the database.
//!
//! The database keeps two trees: one from ids to entries, and one from addresses to ids. Each
//! operation is a task that asks for one action after the other and is told what came of it.
use vstd::prelude::*;

use crate::clock::Timestamp;
use crate::clock::TimestampView;

verus! {

/// An address, and when its name expires.
#[derive(Clone, Copy, Debug)]
pub struct Entry {
    pub expires: Timestamp,
    pub value: [u8; 16],
}

/// What an entry holds.
#[verifier::ext_equal]
pub struct EntryView {
    pub expires: TimestampView,
    pub value: Seq<u8>,
}

impl View for Entry {
    type V = EntryView;

    open spec fn view(&self) -> EntryView {
        EntryView { expires: self.expires@, value: self.value@ }
    }
}

/// An entry with its id and its full name.
#[derive(Debug)]
pub struct ResolvedEntry {
    pub id: String,
    pub dns_name: String,
    pub entry: Entry,
}

/// What an entry with its id and its full name holds.
#[verifier::ext_equal]
pub struct ResolvedView {
    pub id: Seq<char>,
    pub dns_name: Seq<char>,
    pub entry: EntryView,
}

impl View for ResolvedEntry {
    type V = ResolvedView;

    open spec fn view(&self) -> ResolvedView {
        ResolvedView { id: self.id@, dns_name: self.dns_name@, entry: self.entry@ }
    }
}

/// Why an operation failed.
pub enum StoreError {
    /// The database failed, with its message.
    Database(String),
    /// An id in the database is not text, with a message about it.
    BadId(String),
    /// Names are to live longer than any span, with a message about it.
    TtlTooLong(String),
    /// Every id that was tried was taken.
    NoFreeId,
}

/// What an error of the store is about.
#[verifier::ext_equal]
pub enum StoreFault {
    Database(Seq<char>),
    BadId(Seq<char>),
    TtlTooLong(Seq<char>),
    NoFreeId,
}

impl View for StoreError {
    type V = StoreFault;

    open spec fn view(&self) -> StoreFault {
        match self {
            StoreError::Database(message) => StoreFault::Database(message@),
            StoreError::BadId(message) => StoreFault::BadId(message@),
            StoreError::TtlTooLong(message) => StoreFault::TtlTooLong(message@),
            StoreError::NoFreeId => StoreFault::NoFreeId,
        }
    }
}

impl StoreError {
    /// What the error says.
    pub open spec fn text(self) -> Seq<char> {
        match self {
            StoreError::Database(message) => message@,
            StoreError::BadId(message) => message@,
            StoreError::TtlTooLong(message) => message@,
            StoreError::NoFreeId => "Failed to generate unique ID after 100 attempts"@,
        }
    }

    /// The message of the error.
    pub fn message(&self) -> (r: String)
        ensures
            r@ == self.text(),
    {
        match self {
            StoreError::Database(message) => message.clone(),
            StoreError::BadId(message) => message.clone(),
            StoreError::TtlTooLong(message) => message.clone(),
            StoreError::NoFreeId => "Failed to generate unique ID after 100 attempts".to_string(),
        }
    }
}

/// What a lookup is for: the entry of an id, the name of an address, or a name to be added for an
/// address that may have one already.
#[derive(Clone, Copy, Debug)]
pub enum Goal {
    Entry,
    Ip,
    Add([u8; 16]),
}

/// What a lookup is for.
#[verifier::ext_equal]
pub enum GoalView {
    Entry,
    Ip,
    Add(Seq<u8>),
}

impl View for Goal {
    type V = GoalView;

    open spec fn view(&self) -> GoalView {
        match self {
            Goal::Entry => GoalView::Entry,
            Goal::Ip => GoalView::Ip,
            Goal::Add(ip) => GoalView::Add(ip@),
        }
    }
}

/// An operation under way, named after what it waits for.
pub enum Task {
    /// The id of an address.
    LookupId { goal: Goal },
    /// The entry of an id.
    LookupEntry { id: String, goal: Goal },
    /// The time, to see whether the entry has expired.
    CheckEntry { id: String, entry: Entry, goal: Goal },
    /// The removal of an expired entry.
    DropEntry { value: [u8; 16], goal: Goal },
    /// The removal of the id of its address.
    DropId { goal: Goal },
    /// A new id, after `tries` others.
    PickId { ip: [u8; 16], tries: u8 },
    /// Whether the new id is taken.
    CheckId { ip: [u8; 16], id: String, tries: u8 },
    /// The time, to set when the entry expires.
    StampEntry { ip: [u8; 16], id: String },
    /// The storing of the new entry and of the id of its address.
    SaveEntry { id: String, entry: Entry },
    /// The flush behind that.
    Sync { id: String, entry: Entry },
    /// The time, to see which entries have expired.
    CleanClock,
    /// All entries.
    CleanScan { now: Timestamp },
    /// The removal of the next expired entry, the last of `left`.
    CleanEntry { left: Vec<(Vec<u8>, [u8; 16])> },
    /// The removal of the id of its address.
    CleanId { left: Vec<(Vec<u8>, [u8; 16])> },
    /// The flush behind the removals.
    CleanSync,
    /// All entries, to find the latest expiration.
    LatestScan,
    /// Nothing more.
    Ended,
}

/// What an operation under way holds. The expired entries that are left stand in the order in
/// which they are removed.
#[verifier::ext_equal]
pub enum TaskView {
    LookupId { goal: GoalView },
    LookupEntry { id: Seq<char>, goal: GoalView },
    CheckEntry { id: Seq<char>, entry: EntryView, goal: GoalView },
    DropEntry { value: Seq<u8>, goal: GoalView },
    DropId { goal: GoalView },
    PickId { ip: Seq<u8>, tries: u8 },
    CheckId { ip: Seq<u8>, id: Seq<char>, tries: u8 },
    StampEntry { ip: Seq<u8>, id: Seq<char> },
    SaveEntry { id: Seq<char>, entry: EntryView },
    Sync { id: Seq<char>, entry: EntryView },
    CleanClock,
    CleanScan { now: TimestampView },
    CleanEntry { left: Seq<(Seq<u8>, Seq<u8>)> },
    CleanId { left: Seq<(Seq<u8>, Seq<u8>)> },
    CleanSync,
    LatestScan,
    Ended,
}

/// What the pairs of keys and addresses hold.
pub open spec fn pairs(v: Seq<(Vec<u8>, [u8; 16])>) -> Seq<(Seq<u8>, Seq<u8>)> {
    v.map_values(|p: (Vec<u8>, [u8; 16])| (p.0@, p.1@))
}

impl View for Task {
    type V = TaskView;

    open spec fn view(&self) -> TaskView {
        match self {
            Task::LookupId { goal } => TaskView::LookupId { goal: goal@ },
            Task::LookupEntry { id, goal } => TaskView::LookupEntry { id: id@, goal: goal@ },
            Task::CheckEntry { id, entry, goal } => TaskView::CheckEntry {
                id: id@,
                entry: entry@,
                goal: goal@,
            },
            Task::DropEntry { value, goal } => TaskView::DropEntry { value: value@, goal: goal@ },
            Task::DropId { goal } => TaskView::DropId { goal: goal@ },
            Task::PickId { ip, tries } => TaskView::PickId { ip: ip@, tries: *tries },
            Task::CheckId { ip, id, tries } => TaskView::CheckId {
                ip: ip@,
                id: id@,
                tries: *tries,
            },
            Task::StampEntry { ip, id } => TaskView::StampEntry { ip: ip@, id: id@ },
            Task::SaveEntry { id, entry } => TaskView::SaveEntry { id: id@, entry: entry@ },
            Task::Sync { id, entry } => TaskView::Sync { id: id@, entry: entry@ },
            Task::CleanClock => TaskView::CleanClock,
            Task::CleanScan { now } => TaskView::CleanScan { now: now@ },
            Task::CleanEntry { left } => TaskView::CleanEntry { left: pairs(left@).reverse() },
            Task::CleanId { left } => TaskView::CleanId { left: pairs(left@).reverse() },
            Task::CleanSync => TaskView::CleanSync,
            Task::LatestScan => TaskView::LatestScan,
            Task::Ended => TaskView::Ended,
        }
    }
}

/// What came of an operation.
pub enum Outcome {
    /// The entry of an id that was looked up.
    Entry(Option<Entry>),
    /// The name of an address that was looked up.
    Resolved(Option<ResolvedEntry>),
    /// The name that an address has now.
    Added(ResolvedEntry),
    /// The latest expiration of all entries.
    Latest(Option<Timestamp>),
    /// The expired entries are removed.
    Cleaned,
    /// The operation failed.
    Failed(StoreError),
    /// No date is late enough for the expiration of a new name.
    OutOfCalendar,
}

/// What came of an operation.
#[verifier::ext_equal]
pub enum OutcomeView {
    Entry(Option<EntryView>),
    Resolved(Option<ResolvedView>),
    Added(ResolvedView),
    Latest(Option<TimestampView>),
    Cleaned,
    Failed(StoreFault),
    OutOfCalendar,
}

/// What an optional entry holds.
pub open spec fn entry_view(e: Option<Entry>) -> Option<EntryView> {
    match e {
        Some(e) => Some(e@),
        None => None,
    }
}

/// The view of an optional point in time.
pub open spec fn time_view(t: Option<Timestamp>) -> Option<TimestampView> {
    match t {
        Some(t) => Some(t@),
        None => None,
    }
}

impl View for Outcome {
    type V = OutcomeView;

    open spec fn view(&self) -> OutcomeView {
        match self {
            Outcome::Entry(entry) => OutcomeView::Entry(entry_view(*entry)),
            Outcome::Resolved(Some(found)) => OutcomeView::Resolved(Some(found@)),
            Outcome::Resolved(None) => OutcomeView::Resolved(None),
            Outcome::Added(found) => OutcomeView::Added(found@),
            Outcome::Latest(t) => OutcomeView::Latest(time_view(*t)),
            Outcome::Cleaned => OutcomeView::Cleaned,
            Outcome::Failed(e) => OutcomeView::Failed(e@),
            Outcome::OutOfCalendar => OutcomeView::OutOfCalendar,
        }
    }
}

/// What an operation asks for next.
pub enum Action {
    /// Get the entry under a key.
    GetEntry(Vec<u8>),
    /// Get the key under an address.
    GetId([u8; 16]),
    /// Tell whether there is an entry under a key.
    HasEntry(Vec<u8>),
    /// Store an entry under a key and the key under the address of the entry, both or neither.
    Put { key: Vec<u8>, entry: Entry },
    /// Remove the entry under a key.
    RemoveEntry(Vec<u8>),
    /// Remove the key under an address.
    RemoveId([u8; 16]),
    /// Write everything to disk.
    Flush,
    /// List all keys with their entries.
    Scan,
    /// Read the clock.
    ReadClock,
    /// Generate an id.
    NewId,
    /// The operation has ended.
    Return(Outcome),
}

/// What an operation asks for next.
#[verifier::ext_equal]
pub enum ActionView {
    GetEntry(Seq<u8>),
    GetId(Seq<u8>),
    HasEntry(Seq<u8>),
    Put { key: Seq<u8>, entry: EntryView },
    RemoveEntry(Seq<u8>),
    RemoveId(Seq<u8>),
    Flush,
    Scan,
    ReadClock,
    NewId,
    Return(OutcomeView),
}

impl View for Action {
    type V = ActionView;

    open spec fn view(&self) -> ActionView {
        match self {
            Action::GetEntry(key) => ActionView::GetEntry(key@),
            Action::GetId(ip) => ActionView::GetId(ip@),
            Action::HasEntry(key) => ActionView::HasEntry(key@),
            Action::Put { key, entry } => ActionView::Put { key: key@, entry: entry@ },
            Action::RemoveEntry(key) => ActionView::RemoveEntry(key@),
            Action::RemoveId(ip) => ActionView::RemoveId(ip@),
            Action::Flush => ActionView::Flush,
            Action::Scan => ActionView::Scan,
            Action::ReadClock => ActionView::ReadClock,
            Action::NewId => ActionView::NewId,
            Action::Return(outcome) => ActionView::Return(outcome@),
        }
    }
}

/// What came of an action.
pub enum Event {
    /// The entry under the key.
    Found(Option<Entry>),
    /// The key under the address.
    FoundId(Option<Vec<u8>>),
    /// Whether there is an entry under the key.
    Present(bool),
    /// The action was done.
    Done,
    /// All keys with their entries.
    Entries(Vec<(Vec<u8>, Entry)>),
    /// The database failed, with its message.
    Failed(String),
    /// The time.
    Now(Timestamp),
    /// A new id.
    Fresh(String),
}

/// What came of an action.
#[verifier::ext_equal]
pub enum EventView {
    Found(Option<EntryView>),
    FoundId(Option<Seq<u8>>),
    Present(bool),
    Done,
    Entries(Seq<(Seq<u8>, EntryView)>),
    Failed(Seq<char>),
    Now(TimestampView),
    Fresh(Seq<char>),
}

/// What the keys with their entries hold.
pub open spec fn listing(v: Seq<(Vec<u8>, Entry)>) -> Seq<(Seq<u8>, EntryView)> {
    v.map_values(|p: (Vec<u8>, Entry)| (p.0@, p.1@))
}

impl View for Event {
    type V = EventView;

    open spec fn view(&self) -> EventView {
        match self {
            Event::Found(entry) => EventView::Found(entry_view(*entry)),
            Event::FoundId(Some(key)) => EventView::FoundId(Some(key@)),
            Event::FoundId(None) => EventView::FoundId(None),
            Event::Present(present) => EventView::Present(*present),
            Event::Done => EventView::Done,
            Event::Entries(entries) => EventView::Entries(listing(entries@)),
            Event::Failed(message) => EventView::Failed(message@),
            Event::Now(now) => EventView::Now(now@),
            Event::Fresh(id) => EventView::Fresh(id@),
        }
    }
}

} // verus!
