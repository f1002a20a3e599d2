use give_me_dns::message::frame;
use give_me_dns::message::frame_len;
use give_me_dns::message::Edns;
use give_me_dns::message::MessageType;
use give_me_dns::message::Question;
use give_me_dns::message::Request;
use give_me_dns::message::Response;
use give_me_dns::name::DomainName;
use give_me_dns::record::rdata_to_wire;
use give_me_dns::record::Record;
use give_me_dns::record::RecordData;
use give_me_dns::record::Soa;
use hickory_proto::op;
use hickory_proto::rr;
use hickory_proto::serialize::binary::BinDecodable;
use hickory_proto::serialize::binary::BinEncodable;

fn name(text: &str) -> DomainName {
    DomainName::from_ascii(text).unwrap()
}

fn ipv6(last: u8) -> [u8; 16] {
    [0x20, 1, 0xd, 0xb8, 0, 0, 0, 0, 0, 0, 0, 0, 0, 0, 0, last]
}

fn soa() -> Soa {
    Soa {
        mname: name("ns.6dns.me."),
        rname: name("admin.6dns.me."),
        serial: 0x01020304,
        refresh: 3600,
        retry: -2,
        expire: 604800,
        minimum: 3600,
    }
}

#[test]
fn a_request_is_read() {
    let mut m = op::Message::new();
    m.set_id(4711).set_recursion_desired(true);
    m.add_query(op::Query::query(
        rr::Name::from_ascii("Abc.6dns.me.").unwrap(),
        rr::RecordType::AAAA,
    ));
    m.add_query(op::Query::query(rr::Name::from_ascii("other.").unwrap(), rr::RecordType::NS));
    let mut edns = op::Edns::new();
    edns.set_dnssec_ok(true).set_max_payload(1232);
    m.set_edns(edns);
    let request = Request::from_bytes(&m.to_bytes().unwrap()).unwrap();
    assert_eq!(request.id, 4711);
    assert!(request.recursion_desired);
    assert_eq!(request.edns, Some(Edns { dnssec_ok: true, max_payload: 1232 }));
    let q = request.question.unwrap();
    assert_eq!(q.name.labels(), &vec![b"Abc".to_vec(), b"6dns".to_vec(), b"me".to_vec()]);
    assert!(q.name.is_fqdn());
    assert_eq!((q.qtype, q.qclass), (28, 1));
}

#[test]
fn a_request_may_lack_question_and_extension() {
    let mut m = op::Message::new();
    m.set_id(3);
    let request = Request::from_bytes(&m.to_bytes().unwrap()).unwrap();
    assert_eq!(request.id, 3);
    assert!(request.question.is_none() && request.edns.is_none());
}

#[test]
fn what_is_no_message_is_not_read() {
    assert!(Request::from_bytes(&[]).is_none());
    assert!(Request::from_bytes(&[1, 2, 3]).is_none());
}

#[test]
fn a_response_is_written() {
    let response = Response {
        id: 77,
        message_type: MessageType::Response,
        op_code: 0,
        authoritative: true,
        truncated: false,
        recursion_desired: true,
        recursion_available: false,
        response_code: 3,
        edns: Some(Edns { dnssec_ok: true, max_payload: 4096 }),
        question: Some(Question { name: name("a.6dns.me."), qtype: 28, qclass: 1 }),
        answers: vec![
            Record { name: name("a.6dns.me."), ttl: 60, data: RecordData::Aaaa(ipv6(1)) },
            Record { name: name("6dns.me."), ttl: 61, data: RecordData::Ns(name("ns.6dns.me.")) },
        ],
        name_servers: vec![
            Record { name: name("6dns.me."), ttl: 62, data: RecordData::Soa(soa()) },
            Record {
                name: name("6dns.me."),
                ttl: 63,
                data: RecordData::Unknown { code: 65280, data: vec![9, 8, 7] },
            },
        ],
    };
    let m = op::Message::from_bytes(&response.to_bytes().unwrap()).unwrap();
    assert_eq!(m.id(), 77);
    assert_eq!(m.message_type(), op::MessageType::Response);
    assert_eq!(m.op_code(), op::OpCode::Query);
    assert!(m.authoritative() && !m.truncated() && m.recursion_desired());
    assert!(!m.recursion_available());
    assert_eq!(m.response_code(), op::ResponseCode::NXDomain);
    let edns = m.extensions().as_ref().unwrap();
    assert!(edns.flags().dnssec_ok);
    assert_eq!(edns.max_payload(), 4096);
    assert_eq!(m.queries().len(), 1);
    assert_eq!(m.queries()[0].name().to_string(), "a.6dns.me.");
    assert_eq!(u16::from(m.queries()[0].query_type()), 28);
    assert_eq!(u16::from(m.queries()[0].query_class()), 1);
    assert_eq!(m.answers().len(), 2);
    assert_eq!(m.answers()[0].ttl(), 60);
    assert_eq!(m.answers()[0].data().to_string(), "2001:db8::1");
    assert_eq!(m.answers()[1].data().to_string(), "ns.6dns.me.");
    assert_eq!(m.name_servers().len(), 2);
    assert_eq!(m.name_servers()[0].record_type(), rr::RecordType::SOA);
    let read = m.name_servers()[0].data().as_soa().unwrap();
    assert_eq!(read.mname().to_string(), "ns.6dns.me.");
    assert_eq!(read.rname().to_string(), "admin.6dns.me.");
    assert_eq!((read.serial(), read.refresh(), read.retry()), (0x01020304, 3600, -2));
    assert_eq!((read.expire(), read.minimum()), (604800, 3600));
    assert_eq!(u16::from(m.name_servers()[1].record_type()), 65280);
    assert_eq!(m.name_servers()[1].ttl(), 63);
    assert_eq!(m.name_servers()[1].dns_class(), rr::DNSClass::IN);
}

#[test]
fn flags_and_codes_of_a_bare_response() {
    for code in [0u8, 4, 5] {
        let response = Response {
            id: 1,
            message_type: MessageType::Response,
            op_code: 0,
            authoritative: false,
            truncated: true,
            recursion_desired: false,
            recursion_available: false,
            response_code: code,
            edns: None,
            question: None,
            answers: Vec::new(),
            name_servers: Vec::new(),
        };
        let octets = response.to_bytes().unwrap();
        assert_eq!(octets, [0, 1, 0x82, code, 0, 0, 0, 0, 0, 0, 0, 0]);
    }
}

#[test]
fn record_data_on_the_wire() {
    let record = |data: RecordData| Record { name: name("6dns.me."), ttl: 1, data };
    let aaaa = record(RecordData::Aaaa(ipv6(5)));
    assert_eq!(aaaa.record_type(), 28);
    assert_eq!(rdata_to_wire(&aaaa), ipv6(5).to_vec());
    let ns = record(RecordData::Ns(name("Ns.me.")));
    assert_eq!(ns.record_type(), 2);
    assert_eq!(rdata_to_wire(&ns), b"\x02Ns\x02me\x00");
    let unknown = record(RecordData::Unknown { code: 46, data: vec![1, 2] });
    assert_eq!(unknown.record_type(), 46);
    assert_eq!(rdata_to_wire(&unknown), [1, 2]);
    let soa_record = record(RecordData::Soa(soa()));
    assert_eq!(soa_record.record_type(), 6);
    let mut expected = b"\x02ns\x046dns\x02me\x00\x05admin\x046dns\x02me\x00".to_vec();
    expected.extend_from_slice(&[1, 2, 3, 4]);
    expected.extend_from_slice(&[0, 0, 14, 16]);
    expected.extend_from_slice(&[255, 255, 255, 254]);
    expected.extend_from_slice(&[0, 9, 58, 128]);
    expected.extend_from_slice(&[0, 0, 14, 16]);
    assert_eq!(rdata_to_wire(&soa_record), expected);
}

#[test]
fn an_address_reply_points_to_the_name_in_question() {
    let long = [vec![97u8; 63], vec![97; 63], vec![98; 63], vec![99; 61]];
    let long = DomainName::from_labels(long.to_vec(), true).unwrap();
    let root = DomainName::from_labels(Vec::new(), true).unwrap();
    for (owner, wire) in [(long, 255), (name("a.a.a.me."), 10), (root, 1)] {
        for count in 0..4usize {
            let record = Record { name: owner.clone(), ttl: 60, data: RecordData::Aaaa(ipv6(1)) };
            let response = Response {
                id: 1,
                message_type: MessageType::Response,
                op_code: 0,
                authoritative: true,
                truncated: false,
                recursion_desired: true,
                recursion_available: false,
                response_code: 0,
                edns: None,
                question: Some(Question { name: owner.clone(), qtype: 28, qclass: 1 }),
                answers: vec![record; count],
                name_servers: Vec::new(),
            };
            assert!(response.to_bytes().unwrap().len() <= 12 + wire + 4 + 28 * count);
        }
    }
}

#[test]
fn frames_begin_with_their_length() {
    assert_eq!(frame(&[7, 8, 9]), [0, 3, 7, 8, 9]);
    let long = vec![5u8; 515];
    let framed = frame(&long);
    assert_eq!(frame_len([framed[0], framed[1]]), 515);
    assert_eq!(&framed[2..], &long[..]);
    assert_eq!(frame_len([255, 255]), 65535);
}
