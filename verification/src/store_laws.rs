//! What the store goes by: its clock, its keys, its names, and the failures of the database.
use std::time::Duration;

use vstd::prelude::*;
use vstd::utf8::decode_utf8;
use vstd::utf8::decode_utf8_encode_utf8;
use vstd::utf8::encode_utf8;
use vstd::utf8::encode_utf8_decode_utf8;
use vstd::utf8::valid_utf8;

use crate::clock::duration_nanos;
use crate::clock::duration_secs;
use crate::clock::duration_span;
use crate::clock::earlier;
use crate::clock::time_after;
use crate::clock::valid_timestamp;
use crate::clock::TimestampView;
use crate::database::asks;
use crate::database::may_fail;
use crate::outside::clock_showed;
use crate::store::expects;
use crate::store::expired;
use crate::store::key_of;
use crate::store::next;
use crate::store::resolved;
use crate::store::start_add;
use crate::store::start_cleanup;
use crate::store::start_latest;
use crate::store::start_resolve;
use crate::store::start_resolve_ip;
use crate::store::Step;
use crate::store::Store;
use crate::store::StoreView;
use crate::task::ActionView;
use crate::task::EntryView;
use crate::task::EventView;
use crate::task::GoalView;
use crate::task::OutcomeView;
use crate::task::StoreFault;
use crate::task::TaskView;
use crate::text::utf8_error_text;

verus! {

/// Law: a task that asks for the time is taken on with a time that the clock showed, and one that
/// asks for an id with one that the providers of the store offer. Any other is left as it is.
pub proof fn law_task_goes_by_the_clock(store: Store, from: Step, to: Step)
    requires
        store.settles(from, to),
    ensures
        from.1 is ReadClock ==> exists|now: TimestampView| #[trigger]
            clock_showed(now) && to == next(store@, from.0, EventView::Now(now)),
        from.1 is NewId ==> exists|id: Seq<char>| #[trigger]
            store.offers(id) && to == next(store@, from.0, EventView::Fresh(id)),
        !(from.1 is ReadClock) && !(from.1 is NewId) ==> to == from,
{
}

/// Law: an entry that has expired at every time that the clock showed is dropped, and one that
/// has expired at none is found, whatever it is looked up for.
pub proof fn law_entry_lives_by_the_clock(
    store: Store,
    id: Seq<char>,
    entry: EntryView,
    goal: GoalView,
    to: Step,
)
    requires
        store.settles((TaskView::CheckEntry { id, entry, goal }, ActionView::ReadClock), to),
    ensures
        (forall|t: TimestampView| #[trigger] clock_showed(t) ==> earlier(entry.expires, t))
            ==> to == (
            TaskView::DropEntry { value: entry.value, goal },
            ActionView::RemoveEntry(key_of(id)),
        ),
        (forall|t: TimestampView| #[trigger] clock_showed(t) ==> !earlier(entry.expires, t))
            ==> match goal {
            GoalView::Entry => to == (
                TaskView::Ended,
                ActionView::Return(OutcomeView::Entry(Some(entry))),
            ),
            GoalView::Ip => to.1 matches ActionView::Return(OutcomeView::Resolved(Some(r)))
                && r.id == id && r.entry == entry,
            GoalView::Add(_) => to.1 matches ActionView::Return(OutcomeView::Added(r)) && r.id == id
                && r.entry == entry,
        },
{
}

/// Law: the full name of an entry is its id, a dot and the domain of the store, and the id and the
/// entry are as they were stored.
pub proof fn law_full_name_is_id_and_domain(domain: Seq<char>, id: Seq<char>, entry: EntryView)
    ensures
        resolved(domain, id, entry).id == id,
        resolved(domain, id, entry).entry == entry,
        resolved(domain, id, entry).dns_name.len() == id.len() + 1 + domain.len(),
        resolved(domain, id, entry).dns_name.take(id.len() as int) == id,
        resolved(domain, id, entry).dns_name[id.len() as int] == '.',
        resolved(domain, id, entry).dns_name.skip(id.len() as int + 1) == domain,
{
    reveal_strlit(".");
    let name = resolved(domain, id, entry).dns_name;
    assert(name.take(id.len() as int) =~= id);
    assert(name.skip(id.len() as int + 1) =~= domain);
}

/// Law: the key of an id is the id in UTF-8, so that different ids have different keys.
pub proof fn law_keys_tell_ids_apart(a: Seq<char>, b: Seq<char>)
    ensures
        key_of(a) == encode_utf8(a),
        decode_utf8(key_of(a)) == a,
        key_of(a) == key_of(b) ==> a == b,
{
    encode_utf8_decode_utf8(a);
    encode_utf8_decode_utf8(b);
}

/// The nanoseconds from the start of 1970 to a point that is no leap second.
pub open spec fn since_1970(t: TimestampView) -> int {
    t.secs * 1_000_000_000 + t.nanos
}

/// Law: of two points the one with fewer nanoseconds since 1970 is earlier; within a second, also
/// a leap second, the one with fewer nanoseconds is.
pub proof fn law_earlier_has_fewer_nanoseconds(a: TimestampView, b: TimestampView)
    requires
        valid_timestamp(a),
        valid_timestamp(b),
    ensures
        a.nanos < 1_000_000_000 && b.nanos < 1_000_000_000 ==> (earlier(a, b) <==> since_1970(a)
            < since_1970(b)),
        a.secs == b.secs ==> (earlier(a, b) <==> a.nanos < b.nanos),
        !(earlier(a, b) && earlier(b, a)),
        earlier(a, b) || earlier(b, a) || a == b,
{
}

/// Law: a name that is given out at a time that is no leap second expires as many nanoseconds
/// later as names live.
pub proof fn law_name_lives_for_the_time_to_live(now: TimestampView, ttl: Duration)
    requires
        valid_timestamp(now),
        now.nanos < 1_000_000_000,
    ensures
        since_1970(time_after(now, duration_span(ttl))) == since_1970(now) + duration_secs(ttl)
            * 1_000_000_000 + duration_nanos(ttl),
        0 <= time_after(now, duration_span(ttl)).nanos < 1_000_000_000,
{
    let span = duration_span(ttl);
    let nanos = now.nanos + span;
    assert(nanos == nanos / 1_000_000_000 * 1_000_000_000 + nanos % 1_000_000_000);
}

/// Law: a later time, or a longer life, gives a later expiration.
pub proof fn law_later_names_expire_later(
    now: TimestampView,
    later: TimestampView,
    span: int,
    longer: int,
)
    requires
        valid_timestamp(now),
        valid_timestamp(later),
        now.nanos < 1_000_000_000,
        later.nanos < 1_000_000_000,
        !earlier(later, now),
        0 <= span <= longer,
    ensures
        !earlier(time_after(later, longer), time_after(now, span)),
        earlier(now, later) || span < longer ==> earlier(
            time_after(now, span),
            time_after(later, longer),
        ),
{
    let a = now.nanos + span;
    let b = later.nanos + longer;
    assert(a == a / 1_000_000_000 * 1_000_000_000 + a % 1_000_000_000);
    assert(b == b / 1_000_000_000 * 1_000_000_000 + b % 1_000_000_000);
    let x = time_after(now, span);
    let y = time_after(later, longer);
    assert(since_1970(x) == since_1970(now) + span);
    assert(since_1970(y) == since_1970(later) + longer);
}

/// Law: wherever the database may fail, the task waits for the failure, and ends with its message.
pub proof fn law_failures_end_a_task_with_their_message(
    store: StoreView,
    step: Step,
    message: Seq<char>,
)
    requires
        asks(step),
        may_fail(step.1),
    ensures
        expects(step.0, EventView::Failed(message)),
        next(store, step.0, EventView::Failed(message)) == (
            TaskView::Ended,
            ActionView::Return(OutcomeView::Failed(StoreFault::Database(message))),
        ),
{
}

/// Law: to look up an id begins with the entry under its key; to look up an address, or to add a
/// name for it, with the key under the address; and to clean up or to find the latest expiration
/// with all entries, a cleanup after a look at the clock.
pub proof fn law_operations_begin_with_what_they_look_up(id: Seq<char>, ip: Seq<u8>)
    ensures
        start_resolve(id).1 == ActionView::GetEntry(encode_utf8(id)),
        start_resolve_ip(ip).1 == ActionView::GetId(ip),
        start_add(ip).1 == ActionView::GetId(ip),
        start_latest().1 is Scan,
        start_cleanup().1 is ReadClock,
{
}

/// Law: a key under an address that is not text is an error; one that is text is the key of the
/// entry that is looked up.
pub proof fn law_key_under_an_address_leads_to_its_entry(
    store: StoreView,
    goal: GoalView,
    key: Seq<u8>,
)
    ensures
        ({
            let after = next(
                store,
                TaskView::LookupId { goal },
                EventView::FoundId(Some(key)),
            );
            if valid_utf8(key) {
                after.1 == ActionView::GetEntry(key)
            } else {
                after.1 == ActionView::Return(
                    OutcomeView::Failed(StoreFault::BadId(utf8_error_text(key))),
                )
            }
        }),
{
    if valid_utf8(key) {
        decode_utf8_encode_utf8(key);
    }
}

/// Law: nothing is confirmed before it is on disk. A name that was stored is reported, and a
/// cleanup ends, only after a flush; other names are reported only when they were found. What was
/// stored is flushed next.
pub proof fn law_changes_are_flushed_before_they_are_confirmed(
    store: StoreView,
    step: Step,
    event: EventView,
)
    requires
        asks(step),
        expects(step.0, event),
    ensures
        next(store, step.0, event).1 matches ActionView::Return(OutcomeView::Added(_)) ==> step.1
            is Flush || step.0 is CheckEntry,
        next(store, step.0, event).1 matches ActionView::Return(OutcomeView::Cleaned) ==> step.1
            is Flush,
        step.1 is Put && event is Done ==> next(store, step.0, event).1 is Flush,
{
}

/// Law: entries are removed only because they have expired: a lookup removes the entry that it
/// found when the time that it was given is later than the expiration, and a cleanup those of the
/// list for which the time that it read is.
pub proof fn law_only_expired_entries_are_removed(
    store: StoreView,
    id: Seq<char>,
    entry: EntryView,
    goal: GoalView,
    now: TimestampView,
)
    ensures
        next(
            store,
            TaskView::CheckEntry { id, entry, goal },
            EventView::Now(now),
        ).1 is RemoveEntry <==> earlier(entry.expires, now),
        next(
            store,
            TaskView::CleanScan { now },
            EventView::Entries(seq![(key_of(id), entry)]),
        ).1 is RemoveEntry <==> earlier(entry.expires, now),
{
    let one = seq![(key_of(id), entry)];
    assert(one.drop_first() =~= Seq::<(Seq<u8>, EntryView)>::empty());
    assert(one[0] == (key_of(id), entry));
    reveal_with_fuel(expired, 2);
}

} // verus!
