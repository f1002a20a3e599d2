//! What is said of a value is said of all that it holds: each field and each item, as it is.
use vstd::prelude::*;

use crate::bytes::contents;
use crate::bytes::keyed;
use crate::dns::Draft;
use crate::dns::Known;
use crate::dns::Plan;
use crate::dns::PlanView;
use crate::http::fields;
use crate::http::DnsInfo;
use crate::http::Value;
use crate::http::ValueView;
use crate::idprov::strings;
use crate::message::octets_view;
use crate::message::Question;
use crate::message::Request;
use crate::message::Response;
use crate::record::record_views;
use crate::record::Record;
use crate::record::RecordData;
use crate::record::RecordDataView;
use crate::record::Soa;
use crate::task::listing;
use crate::task::pairs;
use crate::task::Action;
use crate::task::ActionView;
use crate::task::Entry;
use crate::task::Event;
use crate::task::EventView;
use crate::task::Goal;
use crate::task::GoalView;
use crate::task::Outcome;
use crate::task::OutcomeView;
use crate::task::ResolvedEntry;
use crate::task::StoreError;
use crate::task::StoreFault;
use crate::task::Task;
use crate::task::TaskView;
use crate::text::texts;
use crate::zone::rrset_views;
use crate::zone::signature_views;
use crate::zone::Rrset;

verus! {

/// Law: a question is its name, type and class.
pub proof fn law_question_is_all_of_it(q: Question)
    ensures
        q@.name == q.name@,
        q@.qtype == q.qtype,
        q@.qclass == q.qclass,
{
}

/// Law: a request is its number, flag, extension and question.
pub proof fn law_request_is_all_of_it(r: Request)
    ensures
        r@.id == r.id,
        r@.recursion_desired == r.recursion_desired,
        r@.edns == r.edns,
        r@.question is Some <==> r.question is Some,
        r.question matches Some(q) ==> r@.question == Some(q@),
{
}

/// Law: a response is its header, its extension, its question and all records of its sections, in
/// their order.
pub proof fn law_response_is_all_of_it(r: Response)
    ensures
        r@.id == r.id,
        r@.message_type == r.message_type,
        r@.op_code == r.op_code,
        r@.authoritative == r.authoritative,
        r@.truncated == r.truncated,
        r@.recursion_desired == r.recursion_desired,
        r@.recursion_available == r.recursion_available,
        r@.response_code == r.response_code,
        r@.edns == r.edns,
        r@.question is Some <==> r.question is Some,
        r.question matches Some(q) ==> r@.question == Some(q@),
        r@.answers.len() == r.answers@.len(),
        forall|i: int| 0 <= i < r.answers@.len() ==> #[trigger] r@.answers[i] == r.answers@[i]@,
        r@.name_servers.len() == r.name_servers@.len(),
        forall|i: int|
            0 <= i < r.name_servers@.len() ==> #[trigger] r@.name_servers[i]
                == r.name_servers@[i]@,
{
}

/// Law: a record is its owner, its time to live and its data, and the data all octets, names and
/// numbers that it has.
pub proof fn law_record_is_all_of_it(r: Record, soa: Soa)
    ensures
        r@.name == r.name@,
        r@.ttl == r.ttl,
        match r.data {
            RecordData::Aaaa(octets) => r@.data == RecordDataView::Aaaa(octets@),
            RecordData::Ns(name) => r@.data == RecordDataView::Ns(name@),
            RecordData::Soa(s) => r@.data == RecordDataView::Soa(s@),
            RecordData::Unknown { code, data } => r@.data == (RecordDataView::Unknown {
                code,
                data: data@,
            }),
        },
        soa@.mname == soa.mname@,
        soa@.rname == soa.rname@,
        soa@.serial == soa.serial,
        soa@.refresh == soa.refresh,
        soa@.retry == soa.retry,
        soa@.expire == soa.expire,
        soa@.minimum == soa.minimum,
{
}

/// Law: a record set is all its records, in their order, its owner and its time to live; a draft
/// is its head and all its record sets.
pub proof fn law_draft_is_all_of_it(d: Draft, s: Rrset)
    ensures
        s@.records.len() == s.records@.len(),
        forall|i: int| 0 <= i < s.records@.len() ==> #[trigger] s@.records[i] == s.records@[i]@,
        s@.owner == s.owner@,
        s@.ttl == s.ttl,
        d@.head == d.head@,
        d@.answers.len() == d.answers@.len(),
        forall|i: int| 0 <= i < d.answers@.len() ==> #[trigger] d@.answers[i] == d.answers@[i]@,
        d@.authority.len() == d.authority@.len(),
        forall|i: int| 0 <= i < d.authority@.len() ==> #[trigger] d@.authority[i]
            == d.authority@[i]@,
{
}

/// Law: a plan is what it asks for or answers.
pub proof fn law_plan_is_all_of_it(p: Plan)
    ensures
        match p {
            Plan::Lookup(id) => p@ == PlanView::Lookup(id@),
            Plan::Latest => p@ is Latest,
            Plan::NoNameServer => p@ is NoNameServer,
            Plan::Reply(response) => p@ == PlanView::Reply(response@),
            Plan::Sign(draft) => p@ == PlanView::Sign(draft@),
        },
{
}

/// Law: what is known from the store is what it told, all octets of an address and the whole of
/// a point in time.
pub proof fn law_known_is_all_of_it(k: Known)
    ensures
        k@.address is Some <==> k.address is Some,
        k.address matches Some(None) ==> k@.address == Some(None::<Seq<u8>>),
        k.address matches Some(Some(octets)) ==> k@.address == Some(Some(octets@)),
        k@.address_again is Some <==> k.address_again is Some,
        k.address_again matches Some(None) ==> k@.address_again == Some(None::<Seq<u8>>),
        k.address_again matches Some(Some(octets)) ==> k@.address_again == Some(Some(octets@)),
        k@.latest is Some <==> k.latest is Some,
        k.latest matches Some(Some(t)) ==> k@.latest == Some(Some(t@)),
        k.latest matches Some(None) ==> k@.latest->0 is None,
{
}

/// Law: an entry is its expiration and all octets of its address, and with its name the id and
/// the full name.
pub proof fn law_entry_is_all_of_it(e: Entry, r: ResolvedEntry)
    ensures
        e@.expires == e.expires@,
        e@.value == e.value@,
        r@.id == r.id@,
        r@.dns_name == r.dns_name@,
        r@.entry == r.entry@,
{
}

/// Law: an error of the store is its message.
pub proof fn law_store_error_is_all_of_it(e: StoreError)
    ensures
        match e {
            StoreError::Database(message) => e@ == StoreFault::Database(message@) && e.text()
                == message@,
            StoreError::BadId(message) => e@ == StoreFault::BadId(message@) && e.text()
                == message@,
            StoreError::TtlTooLong(message) => e@ == StoreFault::TtlTooLong(message@) && e.text()
                == message@,
            StoreError::NoFreeId => e@ == StoreFault::NoFreeId,
        },
{
}

/// Law: an action is what the database is to do, with all octets of keys and addresses.
pub proof fn law_action_is_all_of_it(a: Action)
    ensures
        match a {
            Action::GetEntry(key) => a@ == ActionView::GetEntry(key@),
            Action::GetId(ip) => a@ == ActionView::GetId(ip@),
            Action::HasEntry(key) => a@ == ActionView::HasEntry(key@),
            Action::Put { key, entry } => a@ == (ActionView::Put { key: key@, entry: entry@ }),
            Action::RemoveEntry(key) => a@ == ActionView::RemoveEntry(key@),
            Action::RemoveId(ip) => a@ == ActionView::RemoveId(ip@),
            Action::Flush => a@ is Flush,
            Action::Scan => a@ is Scan,
            Action::ReadClock => a@ is ReadClock,
            Action::NewId => a@ is NewId,
            Action::Return(outcome) => a@ == ActionView::Return(outcome@),
        },
{
}

/// Law: an event is what came of an action, with all entries of a list.
pub proof fn law_event_is_all_of_it(e: Event)
    ensures
        match e {
            Event::Found(Some(entry)) => e@ == EventView::Found(Some(entry@)),
            Event::Found(None) => e@ == EventView::Found(None),
            Event::FoundId(Some(key)) => e@ == EventView::FoundId(Some(key@)),
            Event::FoundId(None) => e@ == EventView::FoundId(None),
            Event::Present(present) => e@ == EventView::Present(present),
            Event::Done => e@ is Done,
            Event::Entries(entries) => e@ matches EventView::Entries(all) && all.len()
                == entries@.len() && forall|i: int|
                0 <= i < all.len() ==> #[trigger] all[i] == (entries@[i].0@, entries@[i].1@),
            Event::Failed(message) => e@ == EventView::Failed(message@),
            Event::Now(now) => e@ == EventView::Now(now@),
            Event::Fresh(id) => e@ == EventView::Fresh(id@),
        },
{
}

/// Law: an outcome is what the operation found, added or failed with.
pub proof fn law_outcome_is_all_of_it(o: Outcome)
    ensures
        match o {
            Outcome::Entry(Some(entry)) => o@ == OutcomeView::Entry(Some(entry@)),
            Outcome::Entry(None) => o@ == OutcomeView::Entry(None),
            Outcome::Resolved(Some(r)) => o@ == OutcomeView::Resolved(Some(r@)),
            Outcome::Resolved(None) => o@ == OutcomeView::Resolved(None),
            Outcome::Added(r) => o@ == OutcomeView::Added(r@),
            Outcome::Latest(Some(t)) => o@ == OutcomeView::Latest(Some(t@)),
            Outcome::Latest(None) => o@ == OutcomeView::Latest(None),
            Outcome::Cleaned => o@ is Cleaned,
            Outcome::Failed(e) => o@ == OutcomeView::Failed(e@),
            Outcome::OutOfCalendar => o@ is OutOfCalendar,
        },
{
}

/// Law: what a client is told is all of it, texts and flags.
pub proof fn law_info_is_all_of_it(i: DnsInfo, v: Value)
    ensures
        i@.has_dns == i.has_dns,
        i@.ttl == i.ttl@,
        i@.address == i.address@,
        i@.dns_name is Some <==> i.dns_name is Some,
        i.dns_name matches Some(name) ==> i@.dns_name == Some(name@),
        i@.expires is Some <==> i.expires is Some,
        i.expires matches Some(expires) ==> i@.expires == Some(expires@),
        match v {
            Value::Flag(flag) => v@ == ValueView::Flag(flag),
            Value::Text(text) => v@ == ValueView::Text(text@),
        },
{
}

/// Law: a list is all its items, in their order.
pub proof fn law_lists_are_all_of_them(
    octets: Seq<Vec<u8>>,
    items: Seq<(Vec<u8>, Vec<u8>)>,
    names: Seq<String>,
    lines: Seq<Vec<char>>,
    records: Seq<Record>,
    sets: Seq<Rrset>,
    signatures: Seq<Option<Vec<u8>>>,
)
    ensures
        contents(octets).len() == octets.len(),
        forall|i: int| 0 <= i < octets.len() ==> #[trigger] contents(octets)[i] == octets[i]@,
        keyed(items).len() == items.len(),
        forall|i: int| 0 <= i < items.len() ==> #[trigger] keyed(items)[i] == (
            items[i].0@,
            items[i].1@,
        ),
        strings(names).len() == names.len(),
        forall|i: int| 0 <= i < names.len() ==> #[trigger] strings(names)[i] == names[i]@,
        texts(lines).len() == lines.len(),
        forall|i: int| 0 <= i < lines.len() ==> #[trigger] texts(lines)[i] == lines[i]@,
        record_views(records).len() == records.len(),
        forall|i: int| 0 <= i < records.len() ==> #[trigger] record_views(records)[i]
            == records[i]@,
        rrset_views(sets).len() == sets.len(),
        forall|i: int| 0 <= i < sets.len() ==> #[trigger] rrset_views(sets)[i] == sets[i]@,
        signature_views(signatures).len() == signatures.len(),
        forall|i: int| 0 <= i < signatures.len() ==> match signatures[i] {
            Some(rdata) => #[trigger] signature_views(signatures)[i] == Some(rdata@),
            None => signature_views(signatures)[i] is None,
        },
{
    assert forall|i: int| 0 <= i < signatures.len() implies match signatures[i] {
        Some(rdata) => #[trigger] signature_views(signatures)[i] == Some(rdata@),
        None => signature_views(signatures)[i] is None,
    } by {
        assert(signature_views(signatures)[i] == octets_view(signatures[i]));
    }
}

/// Law: a list of pairs, and the fields of a page, are all their items, in their order.
pub proof fn law_pairs_are_all_of_them(
    left: Seq<(Vec<u8>, [u8; 16])>,
    entries: Seq<(Vec<u8>, Entry)>,
    page: Seq<(&'static str, Value)>,
)
    ensures
        pairs(left).len() == left.len(),
        forall|i: int| 0 <= i < left.len() ==> #[trigger] pairs(left)[i] == (
            left[i].0@,
            left[i].1@,
        ),
        listing(entries).len() == entries.len(),
        forall|i: int| 0 <= i < entries.len() ==> #[trigger] listing(entries)[i] == (
            entries[i].0@,
            entries[i].1@,
        ),
        fields(page).len() == page.len(),
        forall|i: int| 0 <= i < page.len() ==> #[trigger] fields(page)[i] == (
            page[i].0@,
            page[i].1@,
        ),
{
}

/// Law: a task under way is all that it holds. The expired entries that are left stand in it in
/// the reverse of their order.
pub proof fn law_task_is_all_of_it(t: Task, g: Goal)
    ensures
        match g {
            Goal::Entry => g@ is Entry,
            Goal::Ip => g@ is Ip,
            Goal::Add(ip) => g@ == GoalView::Add(ip@),
        },
        match t {
            Task::LookupId { goal } => t@ == (TaskView::LookupId { goal: goal@ }),
            Task::LookupEntry { id, goal } => t@ == (TaskView::LookupEntry {
                id: id@,
                goal: goal@,
            }),
            Task::CheckEntry { id, entry, goal } => t@ == (TaskView::CheckEntry {
                id: id@,
                entry: entry@,
                goal: goal@,
            }),
            Task::DropEntry { value, goal } => t@ == (TaskView::DropEntry {
                value: value@,
                goal: goal@,
            }),
            Task::DropId { goal } => t@ == (TaskView::DropId { goal: goal@ }),
            Task::PickId { ip, tries } => t@ == (TaskView::PickId { ip: ip@, tries }),
            Task::CheckId { ip, id, tries } => t@ == (TaskView::CheckId {
                ip: ip@,
                id: id@,
                tries,
            }),
            Task::StampEntry { ip, id } => t@ == (TaskView::StampEntry { ip: ip@, id: id@ }),
            Task::SaveEntry { id, entry } => t@ == (TaskView::SaveEntry {
                id: id@,
                entry: entry@,
            }),
            Task::Sync { id, entry } => t@ == (TaskView::Sync { id: id@, entry: entry@ }),
            Task::CleanClock => t@ is CleanClock,
            Task::CleanScan { now } => t@ == (TaskView::CleanScan { now: now@ }),
            Task::CleanEntry { left } => t@ matches TaskView::CleanEntry { left: all } && all.len()
                == left@.len() && forall|i: int|
                0 <= i < all.len() ==> #[trigger] all[i] == (
                    left@[all.len() - 1 - i].0@,
                    left@[all.len() - 1 - i].1@,
                ),
            Task::CleanId { left } => t@ matches TaskView::CleanId { left: all } && all.len()
                == left@.len() && forall|i: int|
                0 <= i < all.len() ==> #[trigger] all[i] == (
                    left@[all.len() - 1 - i].0@,
                    left@[all.len() - 1 - i].1@,
                ),
            Task::CleanSync => t@ is CleanSync,
            Task::LatestScan => t@ is LatestScan,
            Task::Ended => t@ is Ended,
        },
{
}

} // verus!
