use std::sync::Arc;
use std::time::Duration;

use give_me_dns::clock::Timestamp;
use give_me_dns::config::DnsConfig;
use give_me_dns::dns::DnsError;
use give_me_dns::dns::DnsServer;
use give_me_dns::dns::Draft;
use give_me_dns::dns::Known;
use give_me_dns::dns::Plan;
use give_me_dns::dns::Progress;
use give_me_dns::dnssec::message_to_sign;
use give_me_dns::dnssec::SignError;
use give_me_dns::idprov::ProviderManager;
use give_me_dns::key_file::generate_dnssec_key;
use give_me_dns::message::Edns;
use give_me_dns::message::MessageType;
use give_me_dns::message::Question;
use give_me_dns::message::Request;
use give_me_dns::message::Response;
use give_me_dns::name::DomainName;
use give_me_dns::record::rdata_to_wire;
use give_me_dns::record::Record;
use give_me_dns::record::RecordData;
use give_me_dns::store::Store;
use give_me_dns::task::Entry;
use give_me_dns::task::Outcome;
use give_me_dns::zone::Rrset;
use ring::signature::UnparsedPublicKey;
use ring::signature::ECDSA_P256_SHA256_FIXED;

const AAAA: u16 = 28;
const NS: u16 = 2;
const SOA: u16 = 6;
const DNSKEY: u16 = 48;
const RRSIG: u16 = 46;
const NSEC: u16 = 47;

fn name(text: &str) -> DomainName {
    DomainName::from_ascii(text).unwrap()
}

fn ip(last: u8) -> [u8; 16] {
    [0x20, 1, 0xd, 0xb8, 0, 0, 0, 0, 0, 0, 0, 0, 0, 0, 0, last]
}

fn config(ns: &[&str]) -> DnsConfig {
    DnsConfig {
        port: 5354,
        address: None,
        ns: ns.iter().map(|s| s.to_string()).collect(),
        mname: "admin.6dns.me.".to_string(),
        dnssec_key: None,
    }
}

fn store(domain: &str) -> Arc<Store> {
    let (store, _, _) = Store::open(
        domain.to_string(),
        Duration::from_secs(600),
        Arc::new(ProviderManager::new(Vec::new())),
    );
    Arc::new(store)
}

fn server_with(ns: &[&str]) -> DnsServer {
    DnsServer::new(config(ns), store("6dns.me")).ok().unwrap().0
}

fn server() -> DnsServer {
    server_with(&["ns1.6dns.me.", "ns2.6dns.me."])
}

fn request(qname: &str, qtype: u16, edns: Option<Edns>) -> Request {
    Request {
        id: 99,
        recursion_desired: true,
        edns,
        question: Some(Question { name: name(qname), qtype, qclass: 1 }),
    }
}

fn with_dnssec() -> Option<Edns> {
    Some(Edns { dnssec_ok: true, max_payload: 4096 })
}

/// Answers a request from a store that knows some ids and a latest expiration, and tells what it
/// was asked.
fn answer(
    server: &DnsServer,
    request: &Request,
    ids: &[(&str, [u8; 16])],
    latest: Option<i64>,
) -> (Option<Response>, Vec<String>) {
    let mut known = Known::new();
    let mut asked: Vec<String> = Vec::new();
    loop {
        match server.handle_query(request, &known) {
            Progress::Lookup(id) => {
                let found = ids.iter().find(|(known_id, _)| *known_id == id);
                let entry = found.map(|(_, value)| Entry {
                    expires: Timestamp::new(0, 0).unwrap(),
                    value: *value,
                });
                asked.push(id);
                known = known.learn_address(request, &Outcome::Entry(entry));
            }
            Progress::Latest => {
                asked.push("latest".to_string());
                let latest = latest.map(|secs| Timestamp::new(secs, 0).unwrap());
                known = known.learn_latest(&Outcome::Latest(latest));
            }
            Progress::NoNameServer => return (None, asked),
            Progress::Respond(response) => return (Some(response), asked),
        }
    }
}

fn types(records: &[Record]) -> Vec<u16> {
    records.iter().map(|r| r.record_type()).collect()
}

fn serial(record: &Record) -> u32 {
    match &record.data {
        RecordData::Soa(soa) => soa.serial,
        _ => panic!("no start of authority"),
    }
}

fn checks(server: &DnsServer, records: &[Record], signature: &Record, ttl: u32) -> bool {
    let signer = server.signer().as_ref().unwrap();
    let rdata = rdata_to_wire(signature);
    let (head, sig) = rdata.split_at(rdata.len() - 64);
    let mut point = vec![4u8];
    point.extend_from_slice(signer.public_key());
    let message = message_to_sign(head, records, ttl);
    UnparsedPublicKey::new(&ECDSA_P256_SHA256_FIXED, point).verify(&message, sig).is_ok()
}

#[test]
fn a_known_name_is_answered_with_its_address() {
    let server = server();
    let (response, asked) =
        answer(&server, &request("Apple.6dns.me.", AAAA, None), &[("apple", ip(7))], None);
    let response = response.unwrap();
    assert_eq!(asked, ["apple"]);
    assert_eq!(response.id, 99);
    assert_eq!((response.message_type, response.op_code), (MessageType::Response, 0));
    assert!(!response.recursion_available);
    assert!(response.authoritative && response.recursion_desired && !response.truncated);
    assert_eq!(response.response_code, 0);
    assert!(response.edns.is_none());
    assert_eq!(response.question.unwrap().name.text(), "Apple.6dns.me.");
    assert_eq!(types(&response.answers), [AAAA]);
    assert_eq!(response.answers[0].ttl, 600);
    assert_eq!(response.answers[0].name.text(), "Apple.6dns.me.");
    assert_eq!(rdata_to_wire(&response.answers[0]), ip(7).to_vec());
    assert!(response.name_servers.is_empty());
}

#[test]
fn a_signed_address() {
    let server = server();
    let (response, _) =
        answer(&server, &request("apple.6dns.me.", AAAA, with_dnssec()), &[("apple", ip(7))], None);
    let response = response.unwrap();
    assert_eq!(response.edns, Some(Edns { dnssec_ok: true, max_payload: 4096 }));
    assert_eq!(types(&response.answers), [AAAA, RRSIG]);
    assert_eq!(response.answers[1].name.text(), "apple.6dns.me.");
    assert_eq!(response.answers[1].ttl, 600);
    assert!(checks(&server, &response.answers[..1], &response.answers[1], 600));
    assert!(!checks(&server, &response.answers[..1], &response.answers[1], 601));
}

#[test]
fn an_unknown_name_does_not_exist() {
    let server = server();
    let (response, asked) =
        answer(&server, &request("pear.6dns.me.", AAAA, None), &[("apple", ip(7))], Some(1234));
    let response = response.unwrap();
    assert_eq!(asked, ["pear", "latest", "pear"]);
    assert_eq!(response.response_code, 3);
    assert!(response.answers.is_empty());
    assert_eq!(types(&response.name_servers), [SOA]);
    assert_eq!(serial(&response.name_servers[0]), 1234);
}

#[test]
fn an_unknown_name_is_denied_with_proof() {
    let server = server();
    let (response, _) =
        answer(&server, &request("pear.6dns.me.", AAAA, with_dnssec()), &[], Some(1234));
    let response = response.unwrap();
    assert_eq!(response.response_code, 3);
    assert_eq!(types(&response.name_servers), [SOA, RRSIG, NSEC, RRSIG]);
    assert!(checks(&server, &response.name_servers[..1], &response.name_servers[1], 3600));
    assert!(checks(&server, &response.name_servers[2..3], &response.name_servers[3], 3600));
    assert_eq!(response.name_servers[1].name.text(), "6dns.me");
    assert_eq!(response.name_servers[3].name.text(), "pear.6dns.me.");
    assert_eq!(
        rdata_to_wire(&response.name_servers[2]),
        b"\x01\x00\x04pear\x046dns\x02me\x00\x00\x06\x00\x00\x00\x00\x00\x03"
    );
}

#[test]
fn a_known_name_without_the_type_exists() {
    let server = server();
    let (response, asked) =
        answer(&server, &request("apple.6dns.me.", NS, with_dnssec()), &[("apple", ip(7))], None);
    let response = response.unwrap();
    assert_eq!(asked, ["latest", "apple"]);
    assert_eq!(response.response_code, 0);
    assert_eq!(types(&response.name_servers), [SOA, RRSIG, NSEC, RRSIG]);
    let nsec = rdata_to_wire(&response.name_servers[2]);
    assert_eq!(&nsec[nsec.len() - 8..], [0, 6, 0, 0, 0, 8, 0, 3]);
}

#[test]
fn the_zone_itself() {
    let server = server();
    let (response, asked) =
        answer(&server, &request("6DNS.Me.", SOA, None), &[], Some((7i64 << 32) + 5));
    let response = response.unwrap();
    assert_eq!(asked, ["latest"]);
    assert_eq!(types(&response.answers), [SOA]);
    assert_eq!(serial(&response.answers[0]), 5);
    match &response.answers[0].data {
        RecordData::Soa(soa) => {
            assert_eq!(soa.mname.text(), "ns1.6dns.me.");
            assert_eq!(soa.rname.text(), "admin.6dns.me.");
            assert_eq!((soa.refresh, soa.retry, soa.expire), (3600, 600, 604800));
            assert_eq!(soa.minimum, 3600);
        }
        _ => panic!("no start of authority"),
    }
    let (response, asked) = answer(&server, &request("6dns.me.", NS, None), &[], None);
    assert!(asked.is_empty());
    let response = response.unwrap();
    assert_eq!(types(&response.answers), [NS, NS]);
    assert_eq!(rdata_to_wire(&response.answers[1]), b"\x03ns2\x046dns\x02me\x00");
    let (response, _) = answer(&server, &request("6dns.me.", DNSKEY, with_dnssec()), &[], None);
    let response = response.unwrap();
    assert_eq!(types(&response.answers), [DNSKEY, RRSIG]);
    assert_eq!(
        rdata_to_wire(&response.answers[0]),
        server.signer().as_ref().unwrap().dnskey_rdata()
    );
    assert!(checks(&server, &response.answers[..1], &response.answers[1], 3600));
}

#[test]
fn signed_name_servers() {
    let server = server();
    let (response, _) = answer(&server, &request("6dns.me.", NS, with_dnssec()), &[], None);
    let response = response.unwrap();
    assert_eq!(types(&response.answers), [NS, NS, RRSIG]);
    assert!(checks(&server, &response.answers[..2], &response.answers[2], 3600));
}

#[test]
fn the_zone_has_no_other_types() {
    let server = server();
    let (response, asked) = answer(&server, &request("6dns.me.", 1, with_dnssec()), &[], None);
    let response = response.unwrap();
    assert_eq!(asked, ["latest"]);
    assert_eq!(response.response_code, 0);
    assert_eq!(serial(&response.name_servers[0]), 1);
    let nsec = rdata_to_wire(&response.name_servers[2]);
    assert_eq!(&nsec[nsec.len() - 9..], [0, 7, 0x22, 0, 0, 0, 0, 3, 0x80]);
}

#[test]
fn the_first_label_of_the_zone_may_be_an_id() {
    let server = server();
    let (response, asked) = answer(&server, &request("6dns.me.", AAAA, None), &[], None);
    assert_eq!(asked, ["6dns", "latest"]);
    assert_eq!(response.unwrap().response_code, 0);
}

#[test]
fn other_zones_are_refused() {
    let server = server();
    let (response, asked) = answer(&server, &request("a.example.", AAAA, with_dnssec()), &[], None);
    let response = response.unwrap();
    assert!(asked.is_empty());
    assert_eq!(response.response_code, 5);
    assert!(!response.authoritative);
    assert!(response.answers.is_empty() && response.name_servers.is_empty());
    assert!(response.edns.is_some());
}

#[test]
fn other_classes_are_not_implemented() {
    let mut chaos = request("6dns.me.", 16, None);
    chaos.question.as_mut().unwrap().qclass = 3;
    let response = answer(&server(), &chaos, &[], None).0.unwrap();
    assert_eq!(response.response_code, 4);
    assert!(response.authoritative);
}

#[test]
fn a_request_without_a_question_gets_a_bare_response() {
    let empty = Request { id: 5, recursion_desired: false, edns: None, question: None };
    let response = answer(&server(), &empty, &[], None).0.unwrap();
    assert_eq!((response.id, response.response_code), (5, 0));
    assert!(response.question.is_none() && response.answers.is_empty());
}

#[test]
fn what_is_too_large_is_cut_down() {
    let server = server();
    let small = Some(Edns { dnssec_ok: true, max_payload: 100 });
    let (response, _) =
        answer(&server, &request("apple.6dns.me.", AAAA, small), &[("apple", ip(7))], None);
    let response = response.unwrap();
    assert!(response.truncated && response.authoritative);
    assert!(response.answers.is_empty());
    assert_eq!(response.response_code, 0);
    assert_eq!(response.question.unwrap().qtype, AAAA);
    assert!(response.edns.is_some());
    let many: Vec<String> = (0..40).map(|n| format!("name-server-{}.example.", n)).collect();
    let many: Vec<&str> = many.iter().map(|s| s.as_str()).collect();
    let server = server_with(&many);
    let response = answer(&server, &request("6dns.me.", NS, None), &[], None).0.unwrap();
    assert!(response.truncated && response.answers.is_empty());
    let large = Some(Edns { dnssec_ok: false, max_payload: 4096 });
    let response = answer(&server, &request("6dns.me.", NS, large), &[], None).0.unwrap();
    assert!(!response.truncated);
    assert_eq!(response.answers.len(), 40);
}

#[test]
fn a_cut_down_denial_stays_a_denial() {
    let server = server();
    let small = Some(Edns { dnssec_ok: true, max_payload: 100 });
    let (response, _) = answer(&server, &request("pear.6dns.me.", AAAA, small), &[], Some(5));
    let response = response.unwrap();
    assert!(response.truncated && response.authoritative);
    assert_eq!(response.response_code, 3);
    assert!(response.answers.is_empty() && response.name_servers.is_empty());
    assert_eq!(response.question.unwrap().name.text(), "pear.6dns.me.");
}

#[test]
fn letter_case_makes_no_difference() {
    let server = server();
    for qtype in [AAAA, NS, SOA, DNSKEY] {
        for (a, b) in [("apple.6dns.me.", "aPPle.6DNS.Me."), ("6dns.me.", "6Dns.ME."), ("x.", "X.")]
        {
            let ids = [("apple", ip(7))];
            let (x, asked_x) = answer(&server, &request(a, qtype, None), &ids, Some(4));
            let (y, asked_y) = answer(&server, &request(b, qtype, None), &ids, Some(4));
            let (x, y) = (x.unwrap(), y.unwrap());
            assert_eq!(asked_x, asked_y);
            assert_eq!(x.response_code, y.response_code);
            assert_eq!(x.authoritative, y.authoritative);
            let data = |records: &[Record]| -> Vec<Vec<u8>> {
                records.iter().map(|r| rdata_to_wire(r)).collect()
            };
            assert_eq!(data(&x.answers), data(&y.answers));
            assert_eq!(data(&x.name_servers), data(&y.name_servers));
        }
    }
}

#[test]
fn a_response_of_the_largest_size_is_kept() {
    let head = |truncated: bool| Response {
        id: 1,
        message_type: MessageType::Response,
        op_code: 0,
        authoritative: true,
        truncated,
        recursion_desired: true,
        recursion_available: false,
        response_code: 0,
        edns: None,
        question: None,
        answers: Vec::new(),
        name_servers: Vec::new(),
    };
    let asked = request("6dns.me.", NS, None);
    assert!(!DnsServer::fit(&asked, head(false), Some(512)).truncated);
    assert!(DnsServer::fit(&asked, head(false), Some(513)).truncated);
    assert!(!DnsServer::fit(&asked, head(false), None).truncated);
}

#[test]
fn signatures_stand_behind_their_sets() {
    let record = |ttl: u32| Record { name: name("6dns.me."), ttl, data: RecordData::Aaaa(ip(1)) };
    let set = |a: u32, b: u32| Rrset {
        records: vec![record(a), record(b)],
        owner: name("6dns.me."),
        ttl: 9,
    };
    let head = Response {
        id: 1,
        message_type: MessageType::Response,
        op_code: 0,
        authoritative: true,
        truncated: false,
        recursion_desired: true,
        recursion_available: false,
        response_code: 0,
        edns: None,
        question: None,
        answers: Vec::new(),
        name_servers: Vec::new(),
    };
    let draft = Draft { head, answers: vec![set(1, 2), set(3, 4)], authority: vec![set(5, 6)] };
    let response =
        DnsServer::complete(draft, vec![Some(vec![1]), None], vec![Some(vec![2])]);
    let ttls: Vec<u32> = response.answers.iter().map(|r| r.ttl).collect();
    assert_eq!(ttls, [1, 2, 9, 3, 4]);
    assert_eq!(types(&response.name_servers), [AAAA, AAAA, RRSIG]);
    assert_eq!(rdata_to_wire(&response.name_servers[2]), [2]);
}

#[test]
fn a_set_that_cannot_be_signed_goes_without() {
    assert_eq!(DnsServer::kept_signature(Some(Ok(vec![1, 2]))), Some(vec![1, 2]));
    assert_eq!(DnsServer::kept_signature(Some(Err(SignError::Signing))), None);
    assert_eq!(DnsServer::kept_signature(None), None);
}

#[test]
fn a_zone_needs_a_name_server() {
    let server = server_with(&[]);
    assert!(answer(&server, &request("6dns.me.", SOA, None), &[], None).0.is_none());
    assert!(answer(&server, &request("a.6dns.me.", AAAA, None), &[], None).0.is_none());
    let known = answer(&server, &request("a.6dns.me.", AAAA, None), &[("a", ip(1))], None);
    assert_eq!(types(&known.0.unwrap().answers), [AAAA]);
    assert!(matches!(
        server.plan(&request("6dns.me.", NS, None), &Known::new()),
        Plan::Latest
    ));
}

#[test]
fn names_in_the_settings_that_are_none() {
    let server = server_with(&["bad..name", "ns.6dns.me."]);
    let response = answer(&server, &request("6dns.me.", NS, None), &[], None).0.unwrap();
    assert_eq!(response.answers.len(), 1);
    let response = answer(&server, &request("6dns.me.", SOA, None), &[], None).0.unwrap();
    match &response.answers[0].data {
        RecordData::Soa(soa) => assert_eq!(soa.mname.labels(), server.domain().labels()),
        _ => panic!("no start of authority"),
    }
}

#[test]
fn labels_that_are_not_text_have_no_id() {
    let odd = DomainName::from_labels(
        vec![vec![0xff, 0xfe], b"6dns".to_vec(), b"me".to_vec()],
        true,
    )
    .unwrap();
    assert_eq!(DnsServer::resolve_aaaa(&odd), None);
    assert_eq!(DnsServer::resolve_aaaa(&name("me.")), None);
    assert_eq!(DnsServer::resolve_aaaa(&name("ABC.me.")), Some("abc".to_string()));
    let umlaut = DomainName::from_labels(
        vec!["\u{c4}X".as_bytes().to_vec(), b"me".to_vec()],
        true,
    )
    .unwrap();
    assert_eq!(DnsServer::resolve_aaaa(&umlaut), Some("\u{e4}x".to_string()));
    let server = server();
    let asked = Request {
        id: 1,
        recursion_desired: false,
        edns: None,
        question: Some(Question { name: odd, qtype: AAAA, qclass: 1 }),
    };
    let (response, questions) = answer(&server, &asked, &[], None);
    assert_eq!(questions, ["latest"]);
    assert_eq!(response.unwrap().response_code, 3);
}

#[test]
fn a_server_is_set_up() {
    let (server, export) = DnsServer::new(config(&["ns."]), store("6dns.me")).ok().unwrap();
    assert_eq!(server.listen_address(), "[::]:5354");
    assert_eq!(server.domain().labels().len(), 2);
    let mut settings = config(&["ns."]);
    settings.address = Some("127.0.0.1".to_string());
    settings.dnssec_key = export.clone();
    let (again, none) = DnsServer::new(settings, store("6dns.me")).ok().unwrap();
    assert!(none.is_none());
    assert_eq!(again.listen_address(), "127.0.0.1:5354");
    assert_eq!(
        again.signer().as_ref().unwrap().key_tag(),
        server.signer().as_ref().unwrap().key_tag()
    );
    assert!(generate_dnssec_key().ok().unwrap().1 != export.unwrap());
}

#[test]
fn a_server_needs_a_domain_and_a_key() {
    match DnsServer::new(config(&["ns."]), store("bad..domain")) {
        Err(e) => {
            assert!(matches!(&e, DnsError::InvalidDomain(domain) if domain == "bad..domain"));
            assert_eq!(e.message(), "Invalid domain: bad..domain");
        }
        _ => panic!("set up"),
    }
    let mut settings = config(&["ns."]);
    settings.dnssec_key = Some("no key".to_string());
    assert!(matches!(DnsServer::new(settings, store("6dns.me")), Err(DnsError::Key(_))));
}
