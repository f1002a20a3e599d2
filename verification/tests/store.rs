use std::collections::BTreeMap;
use std::sync::Arc;
use std::time::Duration;

use give_me_dns::clock::Timestamp;
use give_me_dns::config::DnsConfig;
use give_me_dns::dns::DnsServer;
use give_me_dns::dns::Known;
use give_me_dns::dns::Progress;
use give_me_dns::idprov::IdProvider;
use give_me_dns::idprov::ProviderManager;
use give_me_dns::idprov::WordlistProvider;
use give_me_dns::idprov::RandomProvider;
use give_me_dns::message::Question;
use give_me_dns::message::Request;
use give_me_dns::name::DomainName;
use give_me_dns::record::rdata_to_wire;
use give_me_dns::store::cleanup_interval;
use give_me_dns::store::Store;
use give_me_dns::task::Action;
use give_me_dns::task::Entry;
use give_me_dns::task::Event;
use give_me_dns::task::Outcome;
use give_me_dns::task::StoreError;
use give_me_dns::task::Task;

#[derive(Default)]
struct Database {
    names: BTreeMap<Vec<u8>, Entry>,
    ids: BTreeMap<Vec<u8>, Vec<u8>>,
    flushes: usize,
}

impl Database {
    fn perform(&mut self, action: Action) -> Result<Event, Outcome> {
        Ok(match action {
            Action::GetEntry(key) => Event::Found(self.names.get(&key).copied()),
            Action::GetId(ip) => Event::FoundId(self.ids.get(ip.as_slice()).cloned()),
            Action::HasEntry(key) => Event::Present(self.names.contains_key(&key)),
            Action::Put { key, entry } => {
                self.ids.insert(entry.value.to_vec(), key.clone());
                self.names.insert(key, entry);
                Event::Done
            }
            Action::RemoveEntry(key) => {
                self.names.remove(&key);
                Event::Done
            }
            Action::RemoveId(ip) => {
                self.ids.remove(ip.as_slice());
                Event::Done
            }
            Action::Flush => {
                self.flushes += 1;
                Event::Done
            }
            Action::Scan => {
                Event::Entries(self.names.iter().map(|(k, e)| (k.clone(), *e)).collect())
            }
            Action::ReadClock | Action::NewId => panic!("not for the database"),
            Action::Return(outcome) => return Err(outcome),
        })
    }

    /// Runs a task with the real clock and provider.
    fn run(&mut self, store: &Store, start: (Task, Action)) -> Outcome {
        let (mut task, mut action) = start;
        loop {
            match self.perform(action) {
                Ok(event) => {
                    assert!(Store::waits_for(&task, &event));
                    (task, action) = store.advance(task, event);
                }
                Err(outcome) => return outcome,
            }
        }
    }

    /// Runs a task step by step with a given time and given ids.
    fn run_at(
        &mut self,
        store: &Store,
        start: (Task, Action),
        now: Timestamp,
        ids: &[&str],
    ) -> Outcome {
        let (mut task, mut action) = start;
        let mut made = 0;
        loop {
            let event = match action {
                Action::ReadClock => Event::Now(now),
                Action::NewId => {
                    made += 1;
                    Event::Fresh(ids[(made - 1) % ids.len()].to_string())
                }
                action => match self.perform(action) {
                    Ok(event) => event,
                    Err(outcome) => return outcome,
                },
            };
            assert!(Store::waits_for(&task, &event));
            (task, action) = store.step(task, event);
        }
    }
}

fn store_with(ttl: Duration, words: &str) -> Store {
    let providers: Vec<Arc<dyn IdProvider>> = vec![Arc::new(WordlistProvider::new(words))];
    let (store, _, _) =
        Store::open("6dns.me".to_string(), ttl, Arc::new(ProviderManager::new(providers)));
    store
}

fn at(secs: i64) -> Timestamp {
    Timestamp::new(secs, 0).unwrap()
}

fn ip(last: u8) -> [u8; 16] {
    [0x20, 1, 0xd, 0xb8, 0, 0, 0, 0, 0, 0, 0, 0, 0, 0, 0, last]
}

fn added(outcome: Outcome) -> (String, String, i64, [u8; 16]) {
    match outcome {
        Outcome::Added(r) => (r.id, r.dns_name, r.entry.expires.timestamp(), r.entry.value),
        _ => panic!("nothing was added"),
    }
}

#[test]
fn a_name_is_added_and_found() {
    let store = store_with(Duration::from_secs(100), "one");
    let mut db = Database::default();
    let r = added(db.run_at(&store, store.add_entry(ip(1)), at(1000), &["one"]));
    assert_eq!(r, ("one".to_string(), "one.6dns.me".to_string(), 1100, ip(1)));
    assert_eq!(db.names.len(), 1);
    assert_eq!(db.ids[&ip(1).to_vec()], b"one");
    assert_eq!(db.flushes, 1);
    match db.run_at(&store, store.resolve_entry("one"), at(1100), &[]) {
        Outcome::Entry(Some(entry)) => assert_eq!(entry.value, ip(1)),
        _ => panic!("not found"),
    }
    match db.run_at(&store, store.resolve_ip(ip(1)), at(1100), &[]) {
        Outcome::Resolved(Some(r)) => {
            assert_eq!((r.id.as_str(), r.dns_name.as_str()), ("one", "one.6dns.me"))
        }
        _ => panic!("not found"),
    }
}

#[test]
fn adding_again_keeps_the_name() {
    let store = store_with(Duration::from_secs(100), "one");
    let mut db = Database::default();
    let first = added(db.run_at(&store, store.add_entry(ip(1)), at(1000), &["one"]));
    let again = added(db.run_at(&store, store.add_entry(ip(1)), at(1099), &["two"]));
    assert_eq!(first, again);
    assert_eq!(db.flushes, 1);
}

#[test]
fn an_expired_name_is_gone() {
    let store = store_with(Duration::from_secs(100), "one");
    let mut db = Database::default();
    added(db.run_at(&store, store.add_entry(ip(1)), at(1000), &["one"]));
    assert!(matches!(
        db.run_at(&store, store.resolve_entry("one"), at(1101), &[]),
        Outcome::Entry(None)
    ));
    assert!(db.names.is_empty() && db.ids.is_empty());
    added(db.run_at(&store, store.add_entry(ip(1)), at(1000), &["one"]));
    assert!(matches!(
        db.run_at(&store, store.resolve_ip(ip(1)), at(1101), &[]),
        Outcome::Resolved(None)
    ));
    assert!(db.names.is_empty() && db.ids.is_empty());
    added(db.run_at(&store, store.add_entry(ip(1)), at(1000), &["one"]));
    let renewed = added(db.run_at(&store, store.add_entry(ip(1)), at(2000), &["two"]));
    assert_eq!((renewed.0.as_str(), renewed.2), ("two", 2100));
    assert_eq!(db.names.len(), 1);
}

#[test]
fn what_is_unknown_is_not_found() {
    let store = store_with(Duration::from_secs(100), "one");
    let mut db = Database::default();
    assert!(matches!(
        db.run_at(&store, store.resolve_entry("one"), at(0), &[]),
        Outcome::Entry(None)
    ));
    assert!(matches!(
        db.run_at(&store, store.resolve_ip(ip(1)), at(0), &[]),
        Outcome::Resolved(None)
    ));
}

#[test]
fn taken_ids_are_passed_over() {
    let store = store_with(Duration::from_secs(100), "one");
    let mut db = Database::default();
    added(db.run_at(&store, store.add_entry(ip(1)), at(1000), &["one"]));
    let second =
        added(db.run_at(&store, store.add_entry(ip(2)), at(1000), &["one", "one", "two"]));
    assert_eq!(second.0, "two");
    let entry = db.names[&b"one".to_vec()];
    assert_eq!(entry.value, ip(1));
}

#[test]
fn after_a_hundred_taken_ids_nothing_is_added() {
    let store = store_with(Duration::from_secs(100), "one");
    let mut db = Database::default();
    added(db.run_at(&store, store.add_entry(ip(1)), at(1000), &["one"]));
    let mut ids = vec!["one"; 99];
    ids.push("two");
    assert_eq!(added(db.run_at(&store, store.add_entry(ip(2)), at(1000), &ids)).0, "two");
    let mut ids = vec!["one"; 100];
    ids.push("three");
    match db.run_at(&store, store.add_entry(ip(3)), at(1000), &ids) {
        Outcome::Failed(e) => {
            assert!(matches!(e, StoreError::NoFreeId));
            assert_eq!(e.message(), "Failed to generate unique ID after 100 attempts");
        }
        _ => panic!("added"),
    }
    assert_eq!(db.names.len(), 2);
}

#[test]
fn a_cleanup_removes_what_has_expired() {
    let store = store_with(Duration::from_secs(100), "one");
    let mut db = Database::default();
    for n in 0..5u8 {
        let id = format!("id{}", n);
        added(db.run_at(&store, store.add_entry(ip(n)), at(1000 + n as i64), &[id.as_str()]));
    }
    let start = (Task::CleanClock, Action::ReadClock);
    assert!(matches!(db.run_at(&store, start, at(1103), &[]), Outcome::Cleaned));
    let left: Vec<&[u8]> = db.names.keys().map(|k| k.as_slice()).collect();
    assert_eq!(left, [b"id3".as_slice(), b"id4"]);
    assert_eq!(db.ids.len(), 2);
    assert_eq!(db.flushes, 6);
    assert!(matches!(db.run(&store, store.cleanup_expired()), Outcome::Cleaned));
    assert!(db.names.is_empty() && db.ids.is_empty());
}

#[test]
fn the_latest_expiration() {
    let store = store_with(Duration::from_secs(100), "one");
    let mut db = Database::default();
    assert!(matches!(
        db.run(&store, store.get_latest_expiration()),
        Outcome::Latest(None)
    ));
    for (n, now) in [1000i64, 3000, 2000].iter().enumerate() {
        let id = format!("id{}", n);
        added(db.run_at(&store, store.add_entry(ip(n as u8)), at(*now), &[id.as_str()]));
    }
    match db.run(&store, store.get_latest_expiration()) {
        Outcome::Latest(Some(t)) => assert_eq!(t.timestamp(), 3100),
        _ => panic!("no expiration"),
    }
}

#[test]
fn the_clock_and_the_provider_serve_the_store() {
    let store = store_with(Duration::from_secs(3600), "word");
    assert_eq!(store.domain(), "6dns.me");
    assert_eq!(store.ttl(), Duration::from_secs(3600));
    let mut db = Database::default();
    let before = Timestamp::now();
    let r = added(db.run(&store, store.add_entry(ip(9))));
    let after = Timestamp::now();
    assert_eq!(r.1, "word.6dns.me");
    assert!(before.timestamp() + 3600 <= r.2 && r.2 <= after.timestamp() + 3600);
    match db.run(&store, store.resolve_entry("word")) {
        Outcome::Entry(Some(entry)) => assert_eq!(entry.value, ip(9)),
        _ => panic!("not found"),
    }
    match db.run(&store, store.add_entry(ip(8))) {
        Outcome::Failed(e) => assert!(matches!(e, StoreError::NoFreeId)),
        _ => panic!("added"),
    }
}

#[test]
fn a_failing_database_ends_a_task_with_its_message() {
    let store = store_with(Duration::from_secs(100), "one");
    let (task, _) = store.add_entry(ip(1));
    let (_, action) = store.step(task, Event::Failed("disk on fire".to_string()));
    match action {
        Action::Return(Outcome::Failed(e)) => assert_eq!(e.message(), "disk on fire"),
        _ => panic!("went on"),
    }
}

#[test]
fn an_entry_and_its_address_are_stored_both_or_neither() {
    let store = store_with(Duration::from_secs(100), "one");
    for failing in 0..5 {
        let mut db = Database::default();
        let (mut task, mut action) = store.add_entry(ip(1));
        let mut performed = 0;
        loop {
            let event = match action {
                Action::ReadClock => Event::Now(at(1000)),
                Action::NewId => Event::Fresh("one".to_string()),
                Action::Return(outcome) => {
                    assert_eq!(matches!(outcome, Outcome::Failed(_)), failing < 4);
                    break;
                }
                action => {
                    performed += 1;
                    if performed - 1 == failing {
                        Event::Failed("broken".to_string())
                    } else {
                        db.perform(action).ok().unwrap()
                    }
                }
            };
            (task, action) = store.step(task, event);
        }
        let stored = usize::from(failing >= 3);
        assert_eq!((db.names.len(), db.ids.len()), (stored, stored));
    }
}

#[test]
fn an_id_that_is_not_text_is_an_error() {
    let store = store_with(Duration::from_secs(100), "one");
    let mut db = Database::default();
    db.ids.insert(ip(1).to_vec(), vec![0xff]);
    match db.run_at(&store, store.resolve_ip(ip(1)), at(0), &[]) {
        Outcome::Failed(e) => {
            assert!(matches!(e, StoreError::BadId(_)));
            assert_eq!(e.message(), String::from_utf8(vec![0xff]).unwrap_err().to_string());
        }
        _ => panic!("found"),
    }
}

#[test]
fn names_cannot_live_forever() {
    let mut db = Database::default();
    let store = store_with(Duration::from_secs(u64::MAX), "one");
    match db.run_at(&store, store.add_entry(ip(1)), at(0), &["one"]) {
        Outcome::Failed(e) => assert_eq!(
            e.message(),
            "Source duration value is out of range for the target type"
        ),
        _ => panic!("added"),
    }
    let store = store_with(Duration::from_secs(9_000_000_000_000), "one");
    assert!(matches!(
        db.run_at(&store, store.add_entry(ip(1)), at(0), &["one"]),
        Outcome::OutOfCalendar
    ));
    assert!(db.names.is_empty());
}

#[test]
fn opening_begins_with_a_cleanup() {
    assert_eq!(cleanup_interval(), Duration::from_secs(216_000));
    let (store, task, action) = Store::open(
        "6dns.me".to_string(),
        Duration::from_secs(1),
        Arc::new(ProviderManager::new(Vec::new())),
    );
    assert!(matches!(action, Action::Scan));
    let mut db = Database::default();
    db.names.insert(b"old".to_vec(), Entry { expires: at(5), value: ip(1) });
    db.ids.insert(ip(1).to_vec(), b"old".to_vec());
    assert!(matches!(db.run(&store, (task, action)), Outcome::Cleaned));
    assert!(db.names.is_empty() && db.ids.is_empty());
}

#[test]
fn tasks_wait_for_their_own_events() {
    let store = store_with(Duration::from_secs(1), "one");
    let (task, _) = store.resolve_entry("one");
    assert!(Store::waits_for(&task, &Event::Found(None)));
    assert!(Store::waits_for(&task, &Event::Failed(String::new())));
    assert!(!Store::waits_for(&task, &Event::Done));
    assert!(!Store::waits_for(&task, &Event::Present(true)));
    assert!(!Store::waits_for(&Task::CleanClock, &Event::Failed(String::new())));
    assert!(!Store::waits_for(&Task::Ended, &Event::Done));
    assert!(!Store::waits_for(&Task::CleanEntry { left: Vec::new() }, &Event::Done));
}

#[test]
fn a_given_name_is_answered_with_its_address() {
    let providers: Vec<Arc<dyn IdProvider>> = vec![Arc::new(RandomProvider::new(8))];
    let (store, _, _) = Store::open(
        "6dns.me".to_string(),
        Duration::from_secs(600),
        Arc::new(ProviderManager::new(providers)),
    );
    let store = Arc::new(store);
    let config = DnsConfig {
        port: 1,
        address: None,
        ns: vec!["ns.6dns.me.".to_string()],
        mname: "admin.6dns.me.".to_string(),
        dnssec_key: None,
    };
    let (server, _) = DnsServer::new(config, Arc::clone(&store)).ok().unwrap();
    let mut db = Database::default();
    let (id, dns_name, _, _) = added(db.run(&store, store.add_entry(ip(3))));
    let name = DomainName::from_ascii(&dns_name).unwrap();
    assert_eq!(
        name.labels(),
        &vec![id.into_bytes(), b"6dns".to_vec(), b"me".to_vec()]
    );
    let question = Question { name, qtype: 28, qclass: 1 };
    let request =
        Request { id: 1, recursion_desired: false, edns: None, question: Some(question) };
    let mut known = Known::new();
    loop {
        match server.handle_query(&request, &known) {
            Progress::Lookup(id) => {
                let outcome = db.run(&store, store.resolve_entry(&id));
                known = known.learn_address(&request, &outcome);
            }
            Progress::Respond(response) => {
                assert_eq!(response.answers.len(), 1);
                assert_eq!(rdata_to_wire(&response.answers[0]), ip(3).to_vec());
                break;
            }
            _ => panic!("nothing else is needed"),
        }
    }
}
