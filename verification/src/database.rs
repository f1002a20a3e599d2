//! What the operations of the store do to an undisturbed database.
use vstd::prelude::*;
use vstd::utf8::decode_utf8;
use vstd::utf8::decode_utf8_encode_utf8;
use vstd::utf8::encode_utf8_decode_utf8;
use vstd::utf8::encode_utf8_valid_utf8;
use vstd::utf8::valid_utf8;

use crate::clock::duration_span;
use crate::clock::earlier;
use crate::clock::longest_span;
use crate::clock::time_after;
use crate::clock::TimestampView;
use crate::clock::LAST_SECOND;
use crate::store::after_cleaning;
use crate::store::after_found;
use crate::store::after_missing;
use crate::store::ends;
use crate::store::expects;
use crate::store::expired;
use crate::store::key_of;
use crate::store::latest;
use crate::store::next;
use crate::store::resolved;
use crate::store::start_add;
use crate::store::start_cleanup;
use crate::store::start_latest;
use crate::store::start_resolve;
use crate::store::start_resolve_ip;
use crate::store::Step;
use crate::store::StoreView;
use crate::store::MAX_ATTEMPTS;
use crate::task::ActionView;
use crate::task::EntryView;
use crate::task::EventView;
use crate::task::GoalView;
use crate::task::OutcomeView;
use crate::task::ResolvedView;
use crate::task::StoreFault;
use crate::task::TaskView;

verus! {

/// What the database holds: entries under keys, and keys under addresses.
#[verifier::ext_equal]
pub struct Db {
    pub names: Map<Seq<u8>, EntryView>,
    pub ids: Map<Seq<u8>, Seq<u8>>,
}

/// What the database holds after an action.
pub open spec fn performed(db: Db, action: ActionView) -> Db {
    match action {
        ActionView::Put { key, entry } => Db {
            names: db.names.insert(key, entry),
            ids: db.ids.insert(entry.value, key),
        },
        ActionView::RemoveEntry(key) => Db { names: db.names.remove(key), ..db },
        ActionView::RemoveId(ip) => Db { ids: db.ids.remove(ip), ..db },
        _ => db,
    }
}

/// The list holds the entries of the database and no others.
pub open spec fn lists(db: Db, entries: Seq<(Seq<u8>, EntryView)>) -> bool {
    &&& forall|i: int|
        0 <= i < entries.len() ==> db.names.contains_key((#[trigger] entries[i]).0)
            && db.names[entries[i].0] == entries[i].1
    &&& forall|key: Seq<u8>| #[trigger]
        db.names.contains_key(key) ==> exists|i: int|
            0 <= i < entries.len() && (#[trigger] entries[i]).0 == key
}

/// The event may come of the action: what an undisturbed database answers, and any time and id.
pub open spec fn answers(db: Db, action: ActionView, event: EventView) -> bool {
    match action {
        ActionView::GetEntry(key) => event == EventView::Found(
            if db.names.contains_key(key) {
                Some(db.names[key])
            } else {
                None
            },
        ),
        ActionView::GetId(ip) => event == EventView::FoundId(
            if db.ids.contains_key(ip) {
                Some(db.ids[ip])
            } else {
                None
            },
        ),
        ActionView::HasEntry(key) => event == EventView::Present(db.names.contains_key(key)),
        ActionView::Put { .. } => event == EventView::Done,
        ActionView::RemoveEntry(_) => event == EventView::Done,
        ActionView::RemoveId(_) => event == EventView::Done,
        ActionView::Flush => event == EventView::Done,
        ActionView::Scan => event matches EventView::Entries(entries) && lists(db, entries),
        ActionView::ReadClock => event is Now,
        ActionView::NewId => event is Fresh,
        ActionView::Return(_) => false,
    }
}

/// Where a task stands when these events came of its actions, one after the other, unless one of
/// them cannot have.
pub open spec fn run(store: StoreView, db: Db, step: Step, events: Seq<EventView>) -> Option<
    (Db, Step),
>
    decreases events.len(),
{
    if events.len() == 0 {
        Some((db, step))
    } else if answers(db, step.1, events[0]) {
        run(
            store,
            performed(db, step.1),
            next(store, step.0, events[0]),
            events.drop_first(),
        )
    } else {
        None
    }
}

/// The task ends with `outcome` after these events, and leaves `db2` behind.
pub open spec fn completes(
    store: StoreView,
    db: Db,
    step: Step,
    events: Seq<EventView>,
    db2: Db,
    outcome: OutcomeView,
) -> bool {
    run(store, db, step, events) == Some((db2, ends(outcome)))
}

/// The keys and the addresses belong together one to one, and the keys are text.
pub open spec fn consistent(db: Db) -> bool {
    &&& forall|key: Seq<u8>| #[trigger]
        db.names.contains_key(key) ==> {
            &&& db.ids.contains_key(db.names[key].value)
            &&& db.ids[db.names[key].value] == key
            &&& valid_utf8(key)
        }
    &&& forall|ip: Seq<u8>| #[trigger]
        db.ids.contains_key(ip) ==> {
            &&& db.names.contains_key(db.ids[ip])
            &&& db.names[db.ids[ip]].value == ip
        }
}

/// At none of the times that were read the entry had expired.
pub open spec fn live(entry: EntryView, events: Seq<EventView>) -> bool {
    forall|i: int|
        0 <= i < events.len() && (#[trigger] events[i]) is Now ==> !earlier(
            entry.expires,
            events[i]->Now_0,
        )
}

/// At all of the times that were read the entry had expired.
pub open spec fn dead(entry: EntryView, events: Seq<EventView>) -> bool {
    forall|i: int|
        0 <= i < events.len() && (#[trigger] events[i]) is Now ==> earlier(
            entry.expires,
            events[i]->Now_0,
        )
}

/// The database without the entry under `key` and without the key under its address.
pub open spec fn without(db: Db, key: Seq<u8>) -> Db {
    Db { names: db.names.remove(key), ids: db.ids.remove(db.names[key].value) }
}

/// The database with an entry under the key of `id`, and the key under its address.
pub open spec fn with(db: Db, id: Seq<char>, entry: EntryView) -> Db {
    Db {
        names: db.names.insert(key_of(id), entry),
        ids: db.ids.insert(entry.value, key_of(id)),
    }
}

/// The ids that were generated.
pub open spec fn fresh_ids(events: Seq<EventView>) -> Seq<Seq<char>>
    decreases events.len(),
{
    if events.len() == 0 {
        seq![]
    } else {
        match events[0] {
            EventView::Fresh(id) => seq![id] + fresh_ids(events.drop_first()),
            _ => fresh_ids(events.drop_first()),
        }
    }
}

/// `id` is the last of these ids, and the only one that is free.
pub open spec fn is_first_free(db: Db, ids: Seq<Seq<char>>, id: Seq<char>) -> bool {
    &&& ids.len() > 0
    &&& ids.last() == id
    &&& !db.names.contains_key(key_of(id))
    &&& forall|i: int|
        0 <= i < ids.len() - 1 ==> db.names.contains_key(key_of(#[trigger] ids[i]))
}

/// A task that has not ended takes an event; one that has ended takes none.
proof fn lemma_unroll(
    store: StoreView,
    db: Db,
    step: Step,
    events: Seq<EventView>,
    db2: Db,
    outcome: OutcomeView,
)
    requires
        completes(store, db, step, events, db2, outcome),
    ensures
        step.1 is Return ==> {
            &&& step == ends(outcome)
            &&& db2 == db
            &&& events.len() == 0
        },
        !(step.1 is Return) ==> {
            &&& events.len() > 0
            &&& answers(db, step.1, events[0])
            &&& completes(
                store,
                performed(db, step.1),
                next(store, step.0, events[0]),
                events.drop_first(),
                db2,
                outcome,
            )
        },
{
}

/// What the lookup of an entry comes to: it is found, or the task goes on without it.
proof fn lemma_lookup_entry(
    store: StoreView,
    db: Db,
    id: Seq<char>,
    goal: GoalView,
    events: Seq<EventView>,
    db2: Db,
    outcome: OutcomeView,
) -> (cut: int)
    requires
        completes(
            store,
            db,
            (TaskView::LookupEntry { id, goal }, ActionView::GetEntry(key_of(id))),
            events,
            db2,
            outcome,
        ),
    ensures
        0 <= cut <= events.len(),
        fresh_ids(events) == fresh_ids(events.skip(cut)),
        ({
            let key = key_of(id);
            let rest = events.skip(cut);
            if !db.names.contains_key(key) {
                completes(store, db, after_missing(goal), rest, db2, outcome)
            } else {
                let entry = db.names[key];
                &&& events.len() > 1
                &&& events[1] is Now
                &&& if earlier(entry.expires, events[1]->Now_0) {
                    completes(store, without(db, key), after_missing(goal), rest, db2, outcome)
                } else {
                    &&& db2 == db
                    &&& rest.len() == 0
                    &&& ends(outcome) == after_found(
                        store.domain,
                        goal,
                        id,
                        entry,
                    )
                }
            }
        }),
{
    let key = key_of(id);
    let s0 = (TaskView::LookupEntry { id, goal }, ActionView::GetEntry(key));
    lemma_unroll(store, db, s0, events, db2, outcome);
    let e1 = events.drop_first();
    assert(e1 =~= events.skip(1));
    let s1 = next(store, s0.0, events[0]);
    assert(fresh_ids(events) == fresh_ids(e1));
    if !db.names.contains_key(key) {
        1
    } else {
        let entry = db.names[key];
        lemma_unroll(store, db, s1, e1, db2, outcome);
        let e2 = e1.drop_first();
        assert(e2 =~= events.skip(2));
        assert(e1[0] == events[1]);
        assert(fresh_ids(e1) == fresh_ids(e2));
        let s2 = next(store, s1.0, e1[0]);
        lemma_unroll(store, db, s2, e2, db2, outcome);
        if earlier(entry.expires, events[1]->Now_0) {
            let db3 = performed(db, s2.1);
            let e3 = e2.drop_first();
            let s3 = next(store, s2.0, e2[0]);
            lemma_unroll(store, db3, s3, e3, db2, outcome);
            let db4 = performed(db3, s3.1);
            assert(db4 =~= without(db, key));
            assert(fresh_ids(e2) == fresh_ids(e3));
            assert(fresh_ids(e3) == fresh_ids(e3.drop_first()));
            assert(e3.drop_first() =~= events.skip(4));
            4
        } else {
            2
        }
    }
}

/// What a new name comes to, from the first id that is generated.
proof fn lemma_pick(
    store: StoreView,
    db: Db,
    ip: Seq<u8>,
    tries: u8,
    events: Seq<EventView>,
    db2: Db,
    outcome: OutcomeView,
)
    requires
        tries < MAX_ATTEMPTS,
        completes(
            store,
            db,
            (TaskView::PickId { ip, tries }, ActionView::NewId),
            events,
            db2,
            outcome,
        ),
    ensures
        match outcome {
            OutcomeView::Added(r) => {
                &&& !db.names.contains_key(key_of(r.id))
                &&& r == resolved(store.domain, r.id, r.entry)
                &&& r.entry.value == ip
                &&& db2 == with(db, r.id, r.entry)
                &&& fresh_ids(events).len() <= MAX_ATTEMPTS - tries
                &&& is_first_free(db, fresh_ids(events), r.id)
                &&& exists|i: int|
                    0 <= i < events.len() && (#[trigger] events[i]) is Now && r.entry.expires
                        == time_after(events[i]->Now_0, duration_span(store.ttl))
            },
            OutcomeView::Failed(StoreFault::NoFreeId) => {
                &&& db2 == db
                &&& fresh_ids(events).len() == MAX_ATTEMPTS - tries
                &&& forall|i: int|
                    0 <= i < fresh_ids(events).len() ==> db.names.contains_key(
                        key_of(#[trigger] fresh_ids(events)[i]),
                    )
            },
            OutcomeView::Failed(StoreFault::TtlTooLong(_)) => {
                &&& db2 == db
                &&& duration_span(store.ttl) > longest_span()
            },
            OutcomeView::OutOfCalendar => {
                &&& db2 == db
                &&& exists|i: int|
                    0 <= i < events.len() && (#[trigger] events[i]) is Now && time_after(
                        events[i]->Now_0,
                        duration_span(store.ttl),
                    ).secs > LAST_SECOND
            },
            _ => false,
        },
        fresh_ids(events).len() > 0,
    decreases events.len(),
{
    let s0 = (TaskView::PickId { ip, tries }, ActionView::NewId);
    lemma_unroll(store, db, s0, events, db2, outcome);
    let id = events[0]->Fresh_0;
    let e1 = events.drop_first();
    let s1 = next(store, s0.0, events[0]);
    lemma_unroll(store, db, s1, e1, db2, outcome);
    let e2 = e1.drop_first();
    let s2 = next(store, s1.0, e1[0]);
    assert(fresh_ids(events) =~= seq![id] + fresh_ids(e1));
    assert(fresh_ids(e1) == fresh_ids(e2));
    lemma_unroll(store, db, s2, e2, db2, outcome);
    if db.names.contains_key(key_of(id)) {
        if tries + 1 < MAX_ATTEMPTS {
            lemma_pick(store, db, ip, (tries + 1) as u8, e2, db2, outcome);
            let later = fresh_ids(e2);
            if let OutcomeView::Added(r) = outcome {
                let i = choose|i: int|
                    0 <= i < e2.len() && (#[trigger] e2[i]) is Now && r.entry.expires
                        == time_after(e2[i]->Now_0, duration_span(store.ttl));
                assert(events[i + 2] == e2[i]);
                let all = fresh_ids(events);
                assert(all.last() == later.last());
                assert forall|k: int| 0 <= k < all.len() - 1 implies db.names.contains_key(
                    key_of(#[trigger] all[k]),
                ) by {
                    if k > 0 {
                        assert(all[k] == later[k - 1]);
                    }
                }
            }
            if outcome is OutOfCalendar {
                let i = choose|i: int|
                    0 <= i < e2.len() && (#[trigger] e2[i]) is Now && time_after(
                        e2[i]->Now_0,
                        duration_span(store.ttl),
                    ).secs > LAST_SECOND;
                assert(events[i + 2] == e2[i]);
            }
            if outcome == OutcomeView::Failed(StoreFault::NoFreeId) {
                let all = fresh_ids(events);
                assert forall|i: int| 0 <= i < all.len() implies db.names.contains_key(
                    key_of(#[trigger] all[i]),
                ) by {
                    if i > 0 {
                        assert(all[i] == later[i - 1]);
                    }
                }
            }
        } else {
            assert(fresh_ids(e2) =~= Seq::<Seq<char>>::empty());
        }
    } else {
        let now = e2[0]->Now_0;
        assert(events[2] == e2[0]);
        let e3 = e2.drop_first();
        let s3 = next(store, s2.0, e2[0]);
        lemma_unroll(store, db, s3, e3, db2, outcome);
        assert(fresh_ids(e2) == fresh_ids(e3));
        if s3.1 is Return {
            assert(fresh_ids(e3) =~= Seq::<Seq<char>>::empty());
        } else {
            let db4 = performed(db, s3.1);
            let e4 = e3.drop_first();
            let s4 = next(store, s3.0, e3[0]);
            lemma_unroll(store, db4, s4, e4, db2, outcome);
            let e5 = e4.drop_first();
            let s5 = next(store, s4.0, e4[0]);
            lemma_unroll(store, db4, s5, e5, db2, outcome);
            assert(fresh_ids(e5) =~= Seq::<Seq<char>>::empty());
            assert(fresh_ids(e3) == fresh_ids(e4));
            assert(fresh_ids(e4) == fresh_ids(e5));
            let entry = EntryView {
                expires: time_after(now, duration_span(store.ttl)),
                value: ip,
            };
            assert(db4 =~= with(db, id, entry));
        }
    }
}

/// Law: the entry of an id is found as long as it has not expired, and nothing changes.
pub proof fn law_live_id_resolves(
    store: StoreView,
    db: Db,
    id: Seq<char>,
    events: Seq<EventView>,
    db2: Db,
    outcome: OutcomeView,
)
    requires
        db.names.contains_key(key_of(id)),
        live(db.names[key_of(id)], events),
        completes(store, db, start_resolve(id), events, db2, outcome),
    ensures
        outcome == OutcomeView::Entry(Some(db.names[key_of(id)])),
        db2 == db,
{
    let cut = lemma_lookup_entry(store, db, id, GoalView::Entry, events, db2, outcome);
}

/// Law: an entry that has expired is not found, and it is removed together with the key of its
/// address.
pub proof fn law_expired_id_is_removed(
    store: StoreView,
    db: Db,
    id: Seq<char>,
    events: Seq<EventView>,
    db2: Db,
    outcome: OutcomeView,
)
    requires
        db.names.contains_key(key_of(id)),
        dead(db.names[key_of(id)], events),
        completes(store, db, start_resolve(id), events, db2, outcome),
    ensures
        outcome == OutcomeView::Entry(None),
        db2 == without(db, key_of(id)),
{
    let cut = lemma_lookup_entry(store, db, id, GoalView::Entry, events, db2, outcome);
    let rest = events.skip(cut);
    lemma_unroll(
        store,
        without(db, key_of(id)),
        after_missing(GoalView::Entry),
        rest,
        db2,
        outcome,
    );
}

/// Law: an id that was never given out is not found, and nothing changes.
pub proof fn law_unknown_id_is_missing(
    store: StoreView,
    db: Db,
    id: Seq<char>,
    events: Seq<EventView>,
    db2: Db,
    outcome: OutcomeView,
)
    requires
        !db.names.contains_key(key_of(id)),
        completes(store, db, start_resolve(id), events, db2, outcome),
    ensures
        outcome == OutcomeView::Entry(None),
        db2 == db,
{
    let cut = lemma_lookup_entry(store, db, id, GoalView::Entry, events, db2, outcome);
    lemma_unroll(store, db, after_missing(GoalView::Entry), events.skip(cut), db2, outcome);
}

/// What the lookup of an address comes to: its name is found, or the task goes on without it.
proof fn lemma_lookup_ip(
    store: StoreView,
    db: Db,
    ip: Seq<u8>,
    goal: GoalView,
    events: Seq<EventView>,
    db2: Db,
    outcome: OutcomeView,
) -> (cut: int)
    requires
        consistent(db),
        completes(
            store,
            db,
            (TaskView::LookupId { goal }, ActionView::GetId(ip)),
            events,
            db2,
            outcome,
        ),
    ensures
        0 <= cut <= events.len(),
        fresh_ids(events) == fresh_ids(events.skip(cut)),
        ({
            let rest = events.skip(cut);
            if !db.ids.contains_key(ip) {
                completes(store, db, after_missing(goal), rest, db2, outcome)
            } else {
                let key = db.ids[ip];
                let entry = db.names[key];
                &&& events.len() > 2
                &&& events[2] is Now
                &&& if earlier(entry.expires, events[2]->Now_0) {
                    completes(store, without(db, key), after_missing(goal), rest, db2, outcome)
                } else {
                    &&& db2 == db
                    &&& rest.len() == 0
                    &&& ends(outcome) == after_found(
                        store.domain,
                        goal,
                        decode_utf8(key),
                        entry,
                    )
                }
            }
        }),
{
    let s0 = (TaskView::LookupId { goal }, ActionView::GetId(ip));
    lemma_unroll(store, db, s0, events, db2, outcome);
    let e1 = events.drop_first();
    assert(e1 =~= events.skip(1));
    assert(fresh_ids(events) == fresh_ids(e1));
    if !db.ids.contains_key(ip) {
        1
    } else {
        let key = db.ids[ip];
        assert(db.names.contains_key(key));
        decode_utf8_encode_utf8(key);
        let cut = lemma_lookup_entry(store, db, decode_utf8(key), goal, e1, db2, outcome);
        assert(e1.skip(cut) =~= events.skip(cut + 1));
        assert(e1[1] == events[2]);
        cut + 1
    }
}

/// The database is consistent again without an entry and the key of its address.
proof fn lemma_without_consistent(db: Db, key: Seq<u8>)
    requires
        consistent(db),
        db.names.contains_key(key),
    ensures
        consistent(without(db, key)),
{
    let ip = db.names[key].value;
    let after = without(db, key);
    assert forall|k: Seq<u8>| #[trigger] after.names.contains_key(k) implies {
        &&& after.ids.contains_key(after.names[k].value)
        &&& after.ids[after.names[k].value] == k
        &&& valid_utf8(k)
    } by {
        assert(db.names.contains_key(k));
    }
    assert forall|i: Seq<u8>| #[trigger] after.ids.contains_key(i) implies {
        &&& after.names.contains_key(after.ids[i])
        &&& after.names[after.ids[i]].value == i
    } by {
        assert(db.ids.contains_key(i));
    }
}

/// Law: the name of an address is found as long as it has not expired, and nothing changes.
pub proof fn law_live_address_resolves(
    store: StoreView,
    db: Db,
    ip: Seq<u8>,
    events: Seq<EventView>,
    db2: Db,
    outcome: OutcomeView,
)
    requires
        consistent(db),
        db.ids.contains_key(ip),
        live(db.names[db.ids[ip]], events),
        completes(store, db, start_resolve_ip(ip), events, db2, outcome),
    ensures
        outcome == OutcomeView::Resolved(
            Some(resolved(store.domain, decode_utf8(db.ids[ip]), db.names[db.ids[ip]])),
        ),
        db2 == db,
{
    let cut = lemma_lookup_ip(store, db, ip, GoalView::Ip, events, db2, outcome);
}

/// Law: an address whose name has expired has none any more, and the entry and the key are
/// removed; an address without a name has none, and nothing changes.
pub proof fn law_address_without_name_is_missing(
    store: StoreView,
    db: Db,
    ip: Seq<u8>,
    events: Seq<EventView>,
    db2: Db,
    outcome: OutcomeView,
)
    requires
        consistent(db),
        db.ids.contains_key(ip) ==> dead(db.names[db.ids[ip]], events),
        completes(store, db, start_resolve_ip(ip), events, db2, outcome),
    ensures
        outcome == OutcomeView::Resolved(None),
        db2 == if db.ids.contains_key(ip) {
            without(db, db.ids[ip])
        } else {
            db
        },
{
    let cut = lemma_lookup_ip(store, db, ip, GoalView::Ip, events, db2, outcome);
    lemma_unroll(
        store,
        if db.ids.contains_key(ip) {
            without(db, db.ids[ip])
        } else {
            db
        },
        after_missing(GoalView::Ip),
        events.skip(cut),
        db2,
        outcome,
    );
}

/// Law: an address that has a name keeps it, however often it asks for one before the name
/// expires. No id is generated, and nothing changes.
pub proof fn law_add_keeps_live_name(
    store: StoreView,
    db: Db,
    ip: Seq<u8>,
    events: Seq<EventView>,
    db2: Db,
    outcome: OutcomeView,
)
    requires
        consistent(db),
        db.ids.contains_key(ip),
        live(db.names[db.ids[ip]], events),
        completes(store, db, start_add(ip), events, db2, outcome),
    ensures
        outcome == OutcomeView::Added(
            resolved(store.domain, decode_utf8(db.ids[ip]), db.names[db.ids[ip]]),
        ),
        db2 == db,
        fresh_ids(events).len() == 0,
{
    let cut = lemma_lookup_ip(store, db, ip, GoalView::Add(ip), events, db2, outcome);
}

/// The database as the search for a new name for `ip` finds it: without an expired name of `ip`.
pub open spec fn vacated(db: Db, ip: Seq<u8>) -> Db {
    if db.ids.contains_key(ip) {
        without(db, db.ids[ip])
    } else {
        db
    }
}

/// Law: an address without a live name gets a new one under the first of the ids, of which no
/// more are generated than are tried at most, that is free. The name lives from a time that was
/// read on for the time to live, and everything else stays as it is. Otherwise nothing is added:
/// every id that was tried, as many as are tried at most, was taken, or no time is late enough.
pub proof fn law_add_gives_new_name(
    store: StoreView,
    db: Db,
    ip: Seq<u8>,
    events: Seq<EventView>,
    db2: Db,
    outcome: OutcomeView,
)
    requires
        consistent(db),
        db.ids.contains_key(ip) ==> dead(db.names[db.ids[ip]], events),
        completes(store, db, start_add(ip), events, db2, outcome),
    ensures
        match outcome {
            OutcomeView::Added(r) => {
                &&& is_first_free(vacated(db, ip), fresh_ids(events), r.id)
                &&& fresh_ids(events).len() <= MAX_ATTEMPTS
                &&& r == resolved(store.domain, r.id, r.entry)
                &&& r.entry.value == ip
                &&& db2 == with(vacated(db, ip), r.id, r.entry)
                &&& exists|i: int|
                    0 <= i < events.len() && (#[trigger] events[i]) is Now && r.entry.expires
                        == time_after(events[i]->Now_0, duration_span(store.ttl))
            },
            OutcomeView::Failed(StoreFault::NoFreeId) => {
                &&& db2 == vacated(db, ip)
                &&& fresh_ids(events).len() == MAX_ATTEMPTS
                &&& forall|i: int|
                    0 <= i < fresh_ids(events).len() ==> db2.names.contains_key(
                        key_of(#[trigger] fresh_ids(events)[i]),
                    )
            },
            OutcomeView::Failed(StoreFault::TtlTooLong(_)) => {
                &&& db2 == vacated(db, ip)
                &&& duration_span(store.ttl) > longest_span()
            },
            OutcomeView::OutOfCalendar => {
                &&& db2 == vacated(db, ip)
                &&& exists|i: int|
                    0 <= i < events.len() && (#[trigger] events[i]) is Now && time_after(
                        events[i]->Now_0,
                        duration_span(store.ttl),
                    ).secs > LAST_SECOND
            },
            _ => false,
        },
        consistent(db2),
{
    let cut = lemma_lookup_ip(store, db, ip, GoalView::Add(ip), events, db2, outcome);
    let rest = events.skip(cut);
    let mid = vacated(db, ip);
    if db.ids.contains_key(ip) {
        lemma_without_consistent(db, db.ids[ip]);
    }
    lemma_pick(store, mid, ip, 0, rest, db2, outcome);
    if let OutcomeView::Added(r) = outcome {
        let i = choose|i: int|
            0 <= i < rest.len() && (#[trigger] rest[i]) is Now && r.entry.expires == time_after(
                rest[i]->Now_0,
                duration_span(store.ttl),
            );
        assert(events[cut + i] == rest[i]);
        assert(!mid.ids.contains_key(ip));
        lemma_with_consistent(mid, r.id, r.entry);
    }
    if outcome is OutOfCalendar {
        let i = choose|i: int|
            0 <= i < rest.len() && (#[trigger] rest[i]) is Now && time_after(
                rest[i]->Now_0,
                duration_span(store.ttl),
            ).secs > LAST_SECOND;
        assert(events[cut + i] == rest[i]);
    }
}

/// The database stays consistent with a new entry under a free id for an address without a name.
proof fn lemma_with_consistent(db: Db, id: Seq<char>, entry: EntryView)
    requires
        consistent(db),
        !db.names.contains_key(key_of(id)),
        !db.ids.contains_key(entry.value),
    ensures
        consistent(with(db, id, entry)),
{
    encode_utf8_valid_utf8(id);
    let after = with(db, id, entry);
    assert forall|k: Seq<u8>| #[trigger] after.names.contains_key(k) implies {
        &&& after.ids.contains_key(after.names[k].value)
        &&& after.ids[after.names[k].value] == k
        &&& valid_utf8(k)
    } by {
        if k != key_of(id) {
            assert(db.names.contains_key(k));
            assert(db.ids.contains_key(db.names[k].value));
        }
    }
    assert forall|i: Seq<u8>| #[trigger] after.ids.contains_key(i) implies {
        &&& after.names.contains_key(after.ids[i])
        &&& after.names[after.ids[i]].value == i
    } by {
        if i != entry.value {
            assert(db.ids.contains_key(i));
            assert(db.names.contains_key(db.ids[i]));
        }
    }
}

/// The entry of a name that was added stands in the database under its id, with the id under its
/// address.
proof fn lemma_added(
    store: StoreView,
    db: Db,
    ip: Seq<u8>,
    events: Seq<EventView>,
    db2: Db,
    r: ResolvedView,
)
    requires
        consistent(db),
        completes(store, db, start_add(ip), events, db2, OutcomeView::Added(r)),
    ensures
        consistent(db2),
        r == resolved(store.domain, r.id, r.entry),
        r.entry.value == ip,
        db2.names.contains_key(key_of(r.id)),
        db2.names[key_of(r.id)] == r.entry,
        db2.ids.contains_key(ip),
        db2.ids[ip] == key_of(r.id),
{
    let outcome = OutcomeView::Added(r);
    let cut = lemma_lookup_ip(store, db, ip, GoalView::Add(ip), events, db2, outcome);
    let rest = events.skip(cut);
    if db.ids.contains_key(ip) && !earlier(db.names[db.ids[ip]].expires, events[2]->Now_0) {
        assert(db.names.contains_key(db.ids[ip]));
        decode_utf8_encode_utf8(db.ids[ip]);
    } else {
        let mid = vacated(db, ip);
        if db.ids.contains_key(ip) {
            lemma_without_consistent(db, db.ids[ip]);
        }
        lemma_pick(store, mid, ip, 0, rest, db2, outcome);
        lemma_with_consistent(mid, r.id, r.entry);
    }
}

/// Law: a name that was given out resolves to its address by its id until it expires.
pub proof fn law_added_name_resolves(
    store: StoreView,
    db: Db,
    ip: Seq<u8>,
    events: Seq<EventView>,
    db2: Db,
    r: ResolvedView,
    later: Seq<EventView>,
    db3: Db,
    outcome: OutcomeView,
)
    requires
        consistent(db),
        completes(store, db, start_add(ip), events, db2, OutcomeView::Added(r)),
        live(r.entry, later),
        completes(store, db2, start_resolve(r.id), later, db3, outcome),
    ensures
        r.entry.value == ip,
        outcome == OutcomeView::Entry(Some(r.entry)),
        db3 == db2,
{
    lemma_added(store, db, ip, events, db2, r);
    law_live_id_resolves(store, db2, r.id, later, db3, outcome);
}

/// Law: a name that was given out is found by its address until it expires.
pub proof fn law_added_name_is_found_by_address(
    store: StoreView,
    db: Db,
    ip: Seq<u8>,
    events: Seq<EventView>,
    db2: Db,
    r: ResolvedView,
    later: Seq<EventView>,
    db3: Db,
    outcome: OutcomeView,
)
    requires
        consistent(db),
        completes(store, db, start_add(ip), events, db2, OutcomeView::Added(r)),
        live(r.entry, later),
        completes(store, db2, start_resolve_ip(ip), later, db3, outcome),
    ensures
        outcome == OutcomeView::Resolved(Some(r)),
        db3 == db2,
{
    lemma_added(store, db, ip, events, db2, r);
    encode_utf8_decode_utf8(r.id);
    law_live_address_resolves(store, db2, ip, later, db3, outcome);
}

/// Law: to add an address again before its name expires gives the same name, generates no id and
/// changes nothing.
pub proof fn law_adding_again_changes_nothing(
    store: StoreView,
    db: Db,
    ip: Seq<u8>,
    events: Seq<EventView>,
    db2: Db,
    r: ResolvedView,
    later: Seq<EventView>,
    db3: Db,
    outcome: OutcomeView,
)
    requires
        consistent(db),
        completes(store, db, start_add(ip), events, db2, OutcomeView::Added(r)),
        live(r.entry, later),
        completes(store, db2, start_add(ip), later, db3, outcome),
    ensures
        outcome == OutcomeView::Added(r),
        db3 == db2,
        fresh_ids(later).len() == 0,
{
    lemma_added(store, db, ip, events, db2, r);
    encode_utf8_decode_utf8(r.id);
    law_add_keeps_live_name(store, db2, ip, later, db3, outcome);
}

/// Law: to add a name changes nothing about the other addresses.
pub proof fn law_add_keeps_other_names(
    store: StoreView,
    db: Db,
    ip: Seq<u8>,
    events: Seq<EventView>,
    db2: Db,
    outcome: OutcomeView,
    other: Seq<u8>,
)
    requires
        consistent(db),
        other != ip,
        completes(store, db, start_add(ip), events, db2, outcome),
    ensures
        db2.ids.contains_key(other) == db.ids.contains_key(other),
        db.ids.contains_key(other) ==> {
            &&& db2.ids[other] == db.ids[other]
            &&& db2.names.contains_key(db.ids[other])
            &&& db2.names[db.ids[other]] == db.names[db.ids[other]]
        },
{
    let cut = lemma_lookup_ip(store, db, ip, GoalView::Add(ip), events, db2, outcome);
    let rest = events.skip(cut);
    if db.ids.contains_key(other) {
        assert(db.names.contains_key(db.ids[other]));
    }
    if db.ids.contains_key(ip) {
        assert(db.names.contains_key(db.ids[ip]));
    }
    if !(db.ids.contains_key(ip) && !earlier(db.names[db.ids[ip]].expires, events[2]->Now_0)) {
        let mid = vacated(db, ip);
        lemma_pick(store, mid, ip, 0, rest, db2, outcome);
    }
}

/// The database without these keys and addresses.
spec fn removed(db: Db, left: Seq<(Seq<u8>, Seq<u8>)>) -> Db
    decreases left.len(),
{
    if left.len() == 0 {
        db
    } else {
        removed(
            Db { names: db.names.remove(left[0].0), ids: db.ids.remove(left[0].1) },
            left.drop_first(),
        )
    }
}

proof fn lemma_clean(
    store: StoreView,
    db: Db,
    left: Seq<(Seq<u8>, Seq<u8>)>,
    events: Seq<EventView>,
    db2: Db,
    outcome: OutcomeView,
)
    requires
        completes(store, db, after_cleaning(left), events, db2, outcome),
    ensures
        outcome == OutcomeView::Cleaned,
        db2 == removed(db, left),
    decreases left.len(),
{
    let s0 = after_cleaning(left);
    lemma_unroll(store, db, s0, events, db2, outcome);
    let db1 = performed(db, s0.1);
    let e1 = events.drop_first();
    let s1 = next(store, s0.0, events[0]);
    lemma_unroll(store, db1, s1, e1, db2, outcome);
    if left.len() > 0 {
        let db3 = performed(db1, s1.1);
        assert(db3 =~= (Db { names: db.names.remove(left[0].0), ids: db.ids.remove(left[0].1) }));
        lemma_clean(store, db3, left.drop_first(), e1.drop_first(), db2, outcome);
    }
}

proof fn lemma_removed(db: Db, left: Seq<(Seq<u8>, Seq<u8>)>)
    ensures
        forall|key: Seq<u8>| #[trigger]
            removed(db, left).names.contains_key(key) <==> db.names.contains_key(key) && forall|
                i: int,
            |
                0 <= i < left.len() ==> (#[trigger] left[i]).0 != key,
        forall|key: Seq<u8>|
            removed(db, left).names.contains_key(key) ==> #[trigger] removed(db, left).names[key]
                == db.names[key],
        forall|ip: Seq<u8>| #[trigger]
            removed(db, left).ids.contains_key(ip) <==> db.ids.contains_key(ip) && forall|i: int|
                0 <= i < left.len() ==> (#[trigger] left[i]).1 != ip,
        forall|ip: Seq<u8>|
            removed(db, left).ids.contains_key(ip) ==> #[trigger] removed(db, left).ids[ip]
                == db.ids[ip],
    decreases left.len(),
{
    if left.len() > 0 {
        let db1 = Db { names: db.names.remove(left[0].0), ids: db.ids.remove(left[0].1) };
        let rest = left.drop_first();
        lemma_removed(db1, rest);
        let all = removed(db, left);
        assert(all == removed(db1, rest));
        assert forall|key: Seq<u8>| #[trigger] all.names.contains_key(key) <==> (
        db.names.contains_key(key) && forall|i: int|
            0 <= i < left.len() ==> (#[trigger] left[i]).0 != key) by {
            if all.names.contains_key(key) {
                assert forall|i: int| 0 <= i < left.len() implies (#[trigger] left[i]).0 != key by {
                    if i > 0 {
                        assert(rest[i - 1] == left[i]);
                    }
                }
            } else if db.names.contains_key(key) {
                if key == left[0].0 {
                    assert(left[0].0 == key);
                } else {
                    let j = choose|j: int| 0 <= j < rest.len() && (#[trigger] rest[j]).0 == key;
                    assert(left[j + 1] == rest[j]);
                }
            }
        }
        assert forall|ip: Seq<u8>| #[trigger] all.ids.contains_key(ip) <==> (db.ids.contains_key(ip)
            && forall|i: int| 0 <= i < left.len() ==> (#[trigger] left[i]).1 != ip) by {
            if all.ids.contains_key(ip) {
                assert forall|i: int| 0 <= i < left.len() implies (#[trigger] left[i]).1 != ip by {
                    if i > 0 {
                        assert(rest[i - 1] == left[i]);
                    }
                }
            } else if db.ids.contains_key(ip) {
                if ip == left[0].1 {
                    assert(left[0].1 == ip);
                } else {
                    let j = choose|j: int| 0 <= j < rest.len() && (#[trigger] rest[j]).1 == ip;
                    assert(left[j + 1] == rest[j]);
                }
            }
        }
    }
}

/// The key and address belong to an entry of the list that has expired.
spec fn has_expired(
    entries: Seq<(Seq<u8>, EntryView)>,
    now: TimestampView,
    p: (Seq<u8>, Seq<u8>),
) -> bool {
    exists|i: int|
        0 <= i < entries.len() && earlier((#[trigger] entries[i]).1.expires, now) && (
        entries[i].0,
        entries[i].1.value,
        ) == p
}

/// The expired entries of a list are those of its entries that have expired.
proof fn lemma_expired(entries: Seq<(Seq<u8>, EntryView)>, now: TimestampView)
    ensures
        expired(entries, now).len() <= entries.len(),
        forall|j: int|
            0 <= j < expired(entries, now).len() ==> has_expired(
                entries,
                now,
                #[trigger] expired(entries, now)[j],
            ),
        forall|i: int|
            0 <= i < entries.len() && earlier((#[trigger] entries[i]).1.expires, now) ==> expired(
                entries,
                now,
            ).contains((entries[i].0, entries[i].1.value)),
    decreases entries.len(),
{
    if entries.len() > 0 {
        let rest = entries.drop_first();
        lemma_expired(rest, now);
        let all = expired(entries, now);
        let some = expired(rest, now);
        let first = earlier(entries[0].1.expires, now);
        let shift: int = if first {
            1
        } else {
            0
        };
        assert forall|j: int| 0 <= j < all.len() implies has_expired(
            entries,
            now,
            #[trigger] all[j],
        ) by {
            if first && j == 0 {
                assert(all[0] == (entries[0].0, entries[0].1.value));
            } else {
                assert(all[j] == some[j - shift]);
                assert(has_expired(rest, now, some[j - shift]));
                let i = choose|i: int|
                    0 <= i < rest.len() && earlier((#[trigger] rest[i]).1.expires, now) && (
                    rest[i].0,
                    rest[i].1.value,
                    ) == some[j - shift];
                assert(entries[i + 1] == rest[i]);
            }
        }
        assert forall|i: int|
            0 <= i < entries.len() && earlier(
                (#[trigger] entries[i]).1.expires,
                now,
            ) implies all.contains((entries[i].0, entries[i].1.value)) by {
            if i == 0 {
                assert(all[0] == (entries[0].0, entries[0].1.value));
            } else {
                assert(rest[i - 1] == entries[i]);
                let p = (rest[i - 1].0, rest[i - 1].1.value);
                assert(some.contains(p));
                let j = choose|j: int| 0 <= j < some.len() && some[j] == p;
                assert(all[j + shift] == p);
            }
        }
    }
}

/// The database with only those entries, and the keys of their addresses, that have not expired
/// at `now`.
pub open spec fn unexpired(db: Db, now: TimestampView) -> Db {
    Db {
        names: Map::new(
            |key: Seq<u8>| db.names.contains_key(key) && !earlier(db.names[key].expires, now),
            |key: Seq<u8>| db.names[key],
        ),
        ids: Map::new(
            |ip: Seq<u8>|
                db.ids.contains_key(ip) && !earlier(db.names[db.ids[ip]].expires, now),
            |ip: Seq<u8>| db.ids[ip],
        ),
    }
}

/// Law: a cleanup removes exactly the entries that had expired at the time that it read, with the
/// keys of their addresses, and keeps the database consistent.
pub proof fn law_cleanup_removes_exactly_the_expired(
    store: StoreView,
    db: Db,
    events: Seq<EventView>,
    db2: Db,
    outcome: OutcomeView,
)
    requires
        consistent(db),
        completes(store, db, start_cleanup(), events, db2, outcome),
    ensures
        outcome == OutcomeView::Cleaned,
        events[0] is Now,
        db2 == unexpired(db, events[0]->Now_0),
        consistent(db2),
{
    let s0 = start_cleanup();
    lemma_unroll(store, db, s0, events, db2, outcome);
    let now = events[0]->Now_0;
    let e1 = events.drop_first();
    let s1 = next(store, s0.0, events[0]);
    lemma_unroll(store, db, s1, e1, db2, outcome);
    let entries = e1[0]->Entries_0;
    let left = expired(entries, now);
    lemma_clean(store, db, left, e1.drop_first(), db2, outcome);
    lemma_removed(db, left);
    lemma_expired(entries, now);
    let kept = unexpired(db, now);
    assert forall|key: Seq<u8>| #[trigger] db2.names.contains_key(key) <==> kept.names.contains_key(
        key,
    ) by {
        if db.names.contains_key(key) {
            let i = choose|i: int| 0 <= i < entries.len() && (#[trigger] entries[i]).0 == key;
            if earlier(db.names[key].expires, now) {
                let p = (entries[i].0, entries[i].1.value);
                assert(left.contains(p));
                let j = choose|j: int| 0 <= j < left.len() && left[j] == p;
                assert(left[j].0 == key);
            } else {
                assert forall|j: int| 0 <= j < left.len() implies (#[trigger] left[j]).0 != key by {
                    assert(has_expired(entries, now, left[j]));
                    let k = choose|k: int|
                        0 <= k < entries.len() && earlier((#[trigger] entries[k]).1.expires, now)
                            && (entries[k].0, entries[k].1.value) == left[j];
                    assert(db.names[entries[k].0] == entries[k].1);
                }
            }
        }
    }
    assert forall|ip: Seq<u8>| #[trigger] db2.ids.contains_key(ip) <==> kept.ids.contains_key(
        ip,
    ) by {
        if db.ids.contains_key(ip) {
            let key = db.ids[ip];
            assert(db.names.contains_key(key));
            let i = choose|i: int| 0 <= i < entries.len() && (#[trigger] entries[i]).0 == key;
            if earlier(db.names[key].expires, now) {
                let p = (entries[i].0, entries[i].1.value);
                assert(left.contains(p));
                let j = choose|j: int| 0 <= j < left.len() && left[j] == p;
                assert(left[j].1 == ip);
            } else {
                assert forall|j: int| 0 <= j < left.len() implies (#[trigger] left[j]).1 != ip by {
                    assert(has_expired(entries, now, left[j]));
                    let k = choose|k: int|
                        0 <= k < entries.len() && earlier((#[trigger] entries[k]).1.expires, now)
                            && (entries[k].0, entries[k].1.value) == left[j];
                    assert(db.names.contains_key(entries[k].0));
                    assert(db.names[entries[k].0] == entries[k].1);
                }
            }
        }
    }
    assert(db2 =~= kept);
    assert forall|k: Seq<u8>| #[trigger] kept.names.contains_key(k) implies {
        &&& kept.ids.contains_key(kept.names[k].value)
        &&& kept.ids[kept.names[k].value] == k
        &&& valid_utf8(k)
    } by {
        assert(db.names.contains_key(k));
    }
    assert forall|i: Seq<u8>| #[trigger] kept.ids.contains_key(i) implies {
        &&& kept.names.contains_key(kept.ids[i])
        &&& kept.names[kept.ids[i]].value == i
    } by {
        assert(db.ids.contains_key(i));
    }
}

proof fn lemma_latest(entries: Seq<(Seq<u8>, EntryView)>)
    ensures
        latest(entries) is None <==> entries.len() == 0,
        latest(entries) matches Some(t) ==> {
            &&& exists|i: int| 0 <= i < entries.len() && (#[trigger] entries[i]).1.expires == t
            &&& forall|i: int|
                0 <= i < entries.len() ==> !earlier(t, (#[trigger] entries[i]).1.expires)
        },
    decreases entries.len(),
{
    if entries.len() > 0 {
        let rest = entries.drop_last();
        lemma_latest(rest);
        let t = latest(entries)->0;
        let last = entries.len() - 1;
        assert(entries[last] == entries.last());
        if let Some(before) = latest(rest) {
            let i = choose|i: int| 0 <= i < rest.len() && (#[trigger] rest[i]).1.expires == before;
            assert(entries[i] == rest[i]);
        }
        assert forall|i: int| 0 <= i < entries.len() implies !earlier(
            t,
            (#[trigger] entries[i]).1.expires,
        ) by {
            if i < last {
                assert(rest[i] == entries[i]);
            }
        }
    }
}

/// Law: the latest expiration is that of an entry, and no entry expires later; there is none only
/// where there are no entries. Nothing changes.
pub proof fn law_latest_expiration_is_the_latest(
    store: StoreView,
    db: Db,
    events: Seq<EventView>,
    db2: Db,
    outcome: OutcomeView,
)
    requires
        completes(store, db, start_latest(), events, db2, outcome),
    ensures
        db2 == db,
        outcome is Latest,
        outcome->Latest_0 is None ==> forall|key: Seq<u8>| !#[trigger] db.names.contains_key(key),
        outcome->Latest_0 matches Some(t) ==> {
            &&& exists|key: Seq<u8>| #[trigger]
                db.names.contains_key(key) && db.names[key].expires == t
            &&& forall|key: Seq<u8>| #[trigger]
                db.names.contains_key(key) ==> !earlier(t, db.names[key].expires)
        },
{
    let s0 = start_latest();
    lemma_unroll(store, db, s0, events, db2, outcome);
    let entries = events[0]->Entries_0;
    lemma_unroll(store, db, next(store, s0.0, events[0]), events.drop_first(), db2, outcome);
    lemma_latest(entries);
    if let Some(t) = latest(entries) {
        let i = choose|i: int| 0 <= i < entries.len() && (#[trigger] entries[i]).1.expires == t;
        assert(db.names.contains_key(entries[i].0));
        assert forall|key: Seq<u8>| #[trigger] db.names.contains_key(key) implies !earlier(
            t,
            db.names[key].expires,
        ) by {
            let j = choose|j: int| 0 <= j < entries.len() && (#[trigger] entries[j]).0 == key;
            assert(db.names[entries[j].0] == entries[j].1);
        }
    }
}

/// Law: whatever comes of a lookup or of an addition, the database stays consistent.
pub proof fn law_operations_keep_the_database_consistent(
    store: StoreView,
    db: Db,
    id: Seq<char>,
    ip: Seq<u8>,
    step: Step,
    events: Seq<EventView>,
    db2: Db,
    outcome: OutcomeView,
)
    requires
        consistent(db),
        step == start_resolve(id) || step == start_resolve_ip(ip) || step == start_add(ip),
        completes(store, db, step, events, db2, outcome),
    ensures
        consistent(db2),
{
    if step == start_resolve(id) {
        let cut = lemma_lookup_entry(store, db, id, GoalView::Entry, events, db2, outcome);
        let rest = events.skip(cut);
        let key = key_of(id);
        if db.names.contains_key(key) {
            lemma_without_consistent(db, key);
            if earlier(db.names[key].expires, events[1]->Now_0) {
                lemma_unroll(
                    store,
                    without(db, key),
                    after_missing(GoalView::Entry),
                    rest,
                    db2,
                    outcome,
                );
            }
        } else {
            lemma_unroll(store, db, after_missing(GoalView::Entry), rest, db2, outcome);
        }
    } else {
        let goal = if step == start_add(ip) {
            GoalView::Add(ip)
        } else {
            GoalView::Ip
        };
        let cut = lemma_lookup_ip(store, db, ip, goal, events, db2, outcome);
        let rest = events.skip(cut);
        let mid = vacated(db, ip);
        if db.ids.contains_key(ip) {
            lemma_without_consistent(db, db.ids[ip]);
        }
        if !(db.ids.contains_key(ip) && !earlier(db.names[db.ids[ip]].expires, events[2]->Now_0)) {
            if step == start_add(ip) {
                lemma_pick(store, mid, ip, 0, rest, db2, outcome);
                if let OutcomeView::Added(r) = outcome {
                    lemma_with_consistent(mid, r.id, r.entry);
                }
            } else {
                lemma_unroll(store, mid, after_missing(goal), rest, db2, outcome);
            }
        }
    }
}

/// The action is the one that the task waits for, and no more ids were tried than may be.
pub open spec fn asks(step: Step) -> bool {
    match step.0 {
        TaskView::LookupId { .. } => step.1 is GetId,
        TaskView::LookupEntry { .. } => step.1 is GetEntry,
        TaskView::CheckEntry { .. } => step.1 is ReadClock,
        TaskView::DropEntry { .. } => step.1 is RemoveEntry,
        TaskView::DropId { .. } => step.1 is RemoveId,
        TaskView::PickId { tries, .. } => step.1 is NewId && tries < MAX_ATTEMPTS,
        TaskView::CheckId { tries, .. } => step.1 is HasEntry && tries < MAX_ATTEMPTS,
        TaskView::StampEntry { .. } => step.1 is ReadClock,
        TaskView::SaveEntry { .. } => step.1 is Put,
        TaskView::Sync { .. } => step.1 is Flush,
        TaskView::CleanClock => step.1 is ReadClock,
        TaskView::CleanScan { .. } => step.1 is Scan,
        TaskView::CleanEntry { left } => step.1 is RemoveEntry && left.len() > 0,
        TaskView::CleanId { left } => step.1 is RemoveId && left.len() > 0,
        TaskView::CleanSync => step.1 is Flush,
        TaskView::LatestScan => step.1 is Scan,
        TaskView::Ended => step.1 is Return,
    }
}

/// Law: what comes of the action of a task is what the task waits for, from its start to its end.
pub proof fn law_answers_are_expected(
    store: StoreView,
    db: Db,
    id: Seq<char>,
    ip: Seq<u8>,
    step: Step,
    event: EventView,
)
    requires
        asks(step),
        answers(db, step.1, event),
    ensures
        expects(step.0, event),
        asks(next(store, step.0, event)),
        asks(start_add(ip)),
        asks(start_resolve(id)),
        asks(start_resolve_ip(ip)),
        asks(start_cleanup()),
        asks(start_latest()),
{
}

/// How many events a task can take at most before it ends, for a task that knows it.
pub open spec fn steps_left(task: TaskView) -> int {
    match task {
        TaskView::LookupId { .. } => 2 * MAX_ATTEMPTS + 8,
        TaskView::LookupEntry { .. } => 2 * MAX_ATTEMPTS + 7,
        TaskView::CheckEntry { .. } => 2 * MAX_ATTEMPTS + 6,
        TaskView::DropEntry { .. } => 2 * MAX_ATTEMPTS + 5,
        TaskView::DropId { .. } => 2 * MAX_ATTEMPTS + 4,
        TaskView::PickId { tries, .. } => 2 * (MAX_ATTEMPTS - tries) + 3,
        TaskView::CheckId { tries, .. } => 2 * (MAX_ATTEMPTS - tries) + 2,
        TaskView::StampEntry { .. } => 3,
        TaskView::SaveEntry { .. } => 2,
        TaskView::Sync { .. } => 1,
        TaskView::CleanEntry { left } => 2 * left.len() as int + 1,
        TaskView::CleanId { left } => 2 * left.len() as int,
        TaskView::CleanSync => 1,
        TaskView::LatestScan => 1,
        _ => 0,
    }
}

/// Law: every task ends. A task takes no more events than it has steps left; a cleanup takes two
/// for each entry at most, and three more.
pub proof fn law_every_task_ends(store: StoreView, db: Db, step: Step, events: Seq<EventView>)
    requires
        asks(step),
        run(store, db, step, events) is Some,
    ensures
        !(step.0 is CleanClock) && !(step.0 is CleanScan) ==> events.len() <= steps_left(step.0),
        step.0 is CleanScan && events.len() > 0 ==> events.len() <= 2 * events[0]->Entries_0.len()
            + 2,
        step.0 is CleanClock && events.len() > 1 ==> events.len() <= 2
            * events[1]->Entries_0.len() + 3,
    decreases events.len(),
{
    if events.len() > 0 {
        let after = next(store, step.0, events[0]);
        let rest = events.drop_first();
        law_every_task_ends(store, performed(db, step.1), after, rest);
        if let TaskView::CleanScan { now } = step.0 {
            lemma_expired(events[0]->Entries_0, now);
        }
        if step.0 is CleanClock && events.len() > 1 {
            assert(rest[0] == events[1]);
        }
    }
}

/// The database may fail to do the action.
pub open spec fn may_fail(action: ActionView) -> bool {
    !(action is ReadClock || action is NewId || action is Return)
}

/// Where a task stands when these events came of its actions, one after the other, unless one of
/// them cannot have. An action of the database may fail, and then nothing of it is done.
pub open spec fn disturbed_run(
    store: StoreView,
    db: Db,
    step: Step,
    events: Seq<EventView>,
) -> Option<(Db, Step)>
    decreases events.len(),
{
    if events.len() == 0 {
        Some((db, step))
    } else {
        let after = next(store, step.0, events[0]);
        if events[0] is Failed && may_fail(step.1) {
            disturbed_run(store, db, after, events.drop_first())
        } else if answers(db, step.1, events[0]) {
            disturbed_run(store, performed(db, step.1), after, events.drop_first())
        } else {
            None
        }
    }
}

/// `db2` is the database as it was, or with a new entry for the address under an id that was
/// free, and the key of the id under the address.
pub open spec fn all_or_nothing(db: Db, ip: Seq<u8>, db2: Db) -> bool {
    db2 == db || exists|id: Seq<char>, entry: EntryView|
        db2 == #[trigger] with(db, id, entry) && entry.value == ip && !db.names.contains_key(
            key_of(id),
        )
}

/// A task that has ended takes no event.
proof fn lemma_disturbed_end(
    store: StoreView,
    db: Db,
    end: OutcomeView,
    events: Seq<EventView>,
    db2: Db,
    outcome: OutcomeView,
)
    requires
        disturbed_run(store, db, ends(end), events) == Some((db2, ends(outcome))),
    ensures
        db2 == db,
        outcome == end,
{
}

proof fn lemma_disturbed_pick(
    store: StoreView,
    db: Db,
    ip: Seq<u8>,
    tries: u8,
    events: Seq<EventView>,
    db2: Db,
    outcome: OutcomeView,
)
    requires
        tries < MAX_ATTEMPTS,
        disturbed_run(
            store,
            db,
            (TaskView::PickId { ip, tries }, ActionView::NewId),
            events,
        ) == Some((db2, ends(outcome))),
    ensures
        all_or_nothing(db, ip, db2),
        outcome matches OutcomeView::Added(r) ==> db2 == with(db, r.id, r.entry) && r.entry.value
            == ip,
        outcome is Added || outcome is Failed || outcome is OutOfCalendar,
    decreases events.len(),
{
    let s0 = (TaskView::PickId { ip, tries }, ActionView::NewId);
    let id = events[0]->Fresh_0;
    let e1 = events.drop_first();
    let s1 = next(store, s0.0, events[0]);
    assert(disturbed_run(store, db, s1, e1) == Some((db2, ends(outcome))));
    let e2 = e1.drop_first();
    let s2 = next(store, s1.0, e1[0]);
    assert(disturbed_run(store, db, s2, e2) == Some((db2, ends(outcome))));
    if e1[0] is Failed {
        lemma_disturbed_end(store, db, s2.1->Return_0, e2, db2, outcome);
    } else if db.names.contains_key(key_of(id)) {
        if tries + 1 < MAX_ATTEMPTS {
            lemma_disturbed_pick(store, db, ip, (tries + 1) as u8, e2, db2, outcome);
        } else {
            lemma_disturbed_end(store, db, s2.1->Return_0, e2, db2, outcome);
        }
    } else {
        let e3 = e2.drop_first();
        let s3 = next(store, s2.0, e2[0]);
        assert(disturbed_run(store, db, s3, e3) == Some((db2, ends(outcome))));
        if s3.1 is Return {
            lemma_disturbed_end(store, db, s3.1->Return_0, e3, db2, outcome);
        } else {
            let entry = s3.0->SaveEntry_entry;
            let e4 = e3.drop_first();
            let s4 = next(store, s3.0, e3[0]);
            if e3[0] is Failed {
                lemma_disturbed_end(store, db, s4.1->Return_0, e4, db2, outcome);
            } else {
                let db4 = performed(db, s3.1);
                assert(db4 =~= with(db, id, entry));
                assert(disturbed_run(store, db4, s4, e4) == Some((db2, ends(outcome))));
                let s5 = next(store, s4.0, e4[0]);
                assert(disturbed_run(store, db4, s5, e4.drop_first()) == Some(
                    (db2, ends(outcome)),
                ));
                lemma_disturbed_end(
                    store,
                    db4,
                    s5.1->Return_0,
                    e4.drop_first(),
                    db2,
                    outcome,
                );
            }
        }
    }
}

/// Law: when a name is added for an address that has no entry, the entry and the key under its
/// address are stored both or neither, whatever fails on the way. Where the addition succeeds,
/// both are stored.
pub proof fn law_addition_is_all_or_nothing(
    store: StoreView,
    db: Db,
    ip: Seq<u8>,
    events: Seq<EventView>,
    db2: Db,
    outcome: OutcomeView,
)
    requires
        db.ids.contains_key(ip) ==> !db.names.contains_key(db.ids[ip]),
        disturbed_run(store, db, start_add(ip), events) == Some((db2, ends(outcome))),
    ensures
        all_or_nothing(db, ip, db2),
        outcome matches OutcomeView::Added(r) ==> db2 == with(db, r.id, r.entry) && r.entry.value
            == ip,
        outcome is Added || outcome is Failed || outcome is OutOfCalendar,
{
    let s0 = start_add(ip);
    let e1 = events.drop_first();
    let s1 = next(store, s0.0, events[0]);
    assert(disturbed_run(store, db, s1, e1) == Some((db2, ends(outcome))));
    if s1.1 is Return {
        lemma_disturbed_end(store, db, s1.1->Return_0, e1, db2, outcome);
    } else if !db.ids.contains_key(ip) {
        lemma_disturbed_pick(store, db, ip, 0, e1, db2, outcome);
    } else {
        decode_utf8_encode_utf8(db.ids[ip]);
        let e2 = e1.drop_first();
        let s2 = next(store, s1.0, e1[0]);
        assert(disturbed_run(store, db, s2, e2) == Some((db2, ends(outcome))));
        if s2.1 is Return {
            lemma_disturbed_end(store, db, s2.1->Return_0, e2, db2, outcome);
        } else {
            lemma_disturbed_pick(store, db, ip, 0, e2, db2, outcome);
        }
    }
}

} // verus!
