//! DNS messages: what is read of a request, and the response with its wire form.
use hickory_proto::op;
use hickory_proto::rr;
use hickory_proto::serialize::binary::BinDecodable;
use hickory_proto::serialize::binary::BinEncodable;
use vstd::prelude::*;

use crate::bytes::append;
use crate::bytes::be16;
use crate::bytes::contents;
use crate::bytes::push_be16;
use crate::name::hickory_name;
use crate::name::hickory_name_view;
use crate::name::name_wire;
use crate::name::valid_labels;
use crate::name::DomainName;
use crate::name::NameView;
use crate::record::record_views;
use crate::record::RecordData;
use crate::record::RecordDataView;
use crate::record::Record;
use crate::record::RecordView;
use crate::record::Soa;
use crate::record::SoaView;

verus! {

/// A question: a name, a type number and a class number.
pub struct Question {
    pub name: DomainName,
    pub qtype: u16,
    pub qclass: u16,
}

/// What a question holds.
#[verifier::ext_equal]
pub struct QuestionView {
    pub name: NameView,
    pub qtype: u16,
    pub qclass: u16,
}

impl View for Question {
    type V = QuestionView;

    open spec fn view(&self) -> QuestionView {
        QuestionView { name: self.name@, qtype: self.qtype, qclass: self.qclass }
    }
}

impl Clone for Question {
    fn clone(&self) -> (r: Self)
        ensures
            r@ == self@,
    {
        Question { name: self.name.clone(), qtype: self.qtype, qclass: self.qclass }
    }
}

/// The extension that asks for DNSSEC records and tells how large an answer may be.
#[derive(Clone, Copy, Debug, PartialEq, Eq, Structural)]
pub struct Edns {
    pub dnssec_ok: bool,
    pub max_payload: u16,
}

/// What the server reads of a request.
pub struct Request {
    pub id: u16,
    pub recursion_desired: bool,
    pub edns: Option<Edns>,
    pub question: Option<Question>,
}

/// What a request holds.
#[verifier::ext_equal]
pub struct RequestView {
    pub id: u16,
    pub recursion_desired: bool,
    pub edns: Option<Edns>,
    pub question: Option<QuestionView>,
}

/// What an optional question holds.
pub open spec fn question_view(question: Option<Question>) -> Option<QuestionView> {
    match question {
        Some(q) => Some(q@),
        None => None,
    }
}

impl View for Request {
    type V = RequestView;

    open spec fn view(&self) -> RequestView {
        RequestView {
            id: self.id,
            recursion_desired: self.recursion_desired,
            edns: self.edns,
            question: question_view(self.question),
        }
    }
}

/// The response code of a normal answer.
pub const NO_ERROR: u8 = 0;

/// The response code for a name that does not exist.
pub const NX_DOMAIN: u8 = 3;

/// The response code for a kind of request that is not served.
pub const NOT_IMPLEMENTED: u8 = 4;

/// The response code for a request that the server will not answer.
pub const REFUSED: u8 = 5;

/// Whether a message asks or answers.
#[derive(Clone, Copy, Debug, PartialEq, Eq, Structural)]
pub enum MessageType {
    Query,
    Response,
}

/// The operation of a standard query.
pub const OP_QUERY: u8 = 0;

/// A message that the server sends.
pub struct Response {
    pub id: u16,
    pub message_type: MessageType,
    pub op_code: u8,
    pub authoritative: bool,
    pub truncated: bool,
    pub recursion_desired: bool,
    pub recursion_available: bool,
    pub response_code: u8,
    pub edns: Option<Edns>,
    pub question: Option<Question>,
    pub answers: Vec<Record>,
    pub name_servers: Vec<Record>,
}

/// What a response holds.
#[verifier::ext_equal]
pub struct ResponseView {
    pub id: u16,
    pub message_type: MessageType,
    pub op_code: u8,
    pub authoritative: bool,
    pub truncated: bool,
    pub recursion_desired: bool,
    pub recursion_available: bool,
    pub response_code: u8,
    pub edns: Option<Edns>,
    pub question: Option<QuestionView>,
    pub answers: Seq<RecordView>,
    pub name_servers: Seq<RecordView>,
}

impl View for Response {
    type V = ResponseView;

    open spec fn view(&self) -> ResponseView {
        ResponseView {
            id: self.id,
            message_type: self.message_type,
            op_code: self.op_code,
            authoritative: self.authoritative,
            truncated: self.truncated,
            recursion_desired: self.recursion_desired,
            recursion_available: self.recursion_available,
            response_code: self.response_code,
            edns: self.edns,
            question: question_view(self.question),
            answers: record_views(self.answers@),
            name_servers: record_views(self.name_servers@),
        }
    }
}

/// `hickory_proto::op::Message`, a message under construction.
#[verifier::external_type_specification]
#[verifier::external_body]
pub struct ExMessage(hickory_proto::op::Message);

/// `hickory_proto::rr::RData`, the data of a record.
#[verifier::external_type_specification]
#[verifier::external_body]
pub struct ExRData(hickory_proto::rr::RData);

/// What a `hickory_proto::rr::RData` holds.
pub uninterp spec fn hickory_rdata_view(data: rr::RData) -> RecordDataView;

/// What a `hickory_proto::op::Message` holds.
pub uninterp spec fn hickory_message_view(message: op::Message) -> ResponseView;

/// The octets that `to_bytes` writes for a message.
pub uninterp spec fn message_encoding(message: ResponseView) -> Option<Seq<u8>>;

/// What `hickory_proto::op::Message::from_bytes` reads out of the octets of a request.
pub uninterp spec fn decoded_request(octets: Seq<u8>) -> Option<RequestView>;

/// Makes a `hickory_proto::rr::RData::AAAA`, which holds the address.
#[verifier::external_body]
fn aaaa_rdata(octets: [u8; 16]) -> (r: rr::RData)
    ensures
        hickory_rdata_view(r) == RecordDataView::Aaaa(octets@),
{
    rr::RData::AAAA(rr::rdata::AAAA(octets.into()))
}

/// Makes a `hickory_proto::rr::RData::NS`, which holds the name.
#[verifier::external_body]
fn ns_rdata(name: rr::Name) -> (r: rr::RData)
    ensures
        hickory_rdata_view(r) == RecordDataView::Ns(hickory_name_view(name)),
{
    rr::RData::NS(rr::rdata::NS(name))
}

/// Calls `hickory_proto::rr::rdata::SOA::new`, which holds the two names and the five numbers.
#[verifier::external_body]
fn soa_rdata(mname: rr::Name, rname: rr::Name, soa: &Soa) -> (r: rr::RData)
    ensures
        hickory_rdata_view(r) == RecordDataView::Soa(
            (SoaView {
                mname: hickory_name_view(mname),
                rname: hickory_name_view(rname),
                serial: soa.serial,
                refresh: soa.refresh,
                retry: soa.retry,
                expire: soa.expire,
                minimum: soa.minimum,
            }),
        ),
{
    rr::RData::SOA(
        rr::rdata::SOA::new(
            mname,
            rname,
            soa.serial,
            soa.refresh,
            soa.retry,
            soa.expire,
            soa.minimum,
        ),
    )
}

/// Makes a `hickory_proto::rr::RData::Unknown`, which holds the type number and the octets. There
/// must be some: `hickory_proto::rr::rdata::NULL::with` is not for empty data.
#[verifier::external_body]
fn unknown_rdata(code: u16, data: Vec<u8>) -> (r: rr::RData)
    requires
        data@.len() > 0,
    ensures
        hickory_rdata_view(r) == (RecordDataView::Unknown { code, data: data@ }),
{
    rr::RData::Unknown { code: code.into(), rdata: rr::rdata::NULL::with(data) }
}

/// What the header of a message says.
pub struct Header {
    pub id: u16,
    pub message_type: MessageType,
    pub op_code: u8,
    pub authoritative: bool,
    pub truncated: bool,
    pub recursion_desired: bool,
    pub recursion_available: bool,
    pub response_code: u8,
}

/// The message that has this header and nothing else.
pub open spec fn bare_message(h: Header) -> ResponseView {
    ResponseView {
        id: h.id,
        message_type: h.message_type,
        op_code: h.op_code,
        authoritative: h.authoritative,
        truncated: h.truncated,
        recursion_desired: h.recursion_desired,
        recursion_available: h.recursion_available,
        response_code: h.response_code,
        edns: None,
        question: None,
        answers: Seq::empty(),
        name_servers: Seq::empty(),
    }
}

/// Calls `hickory_proto::op::Message::new`, which starts a message without records, and sets what
/// its header says.
#[verifier::external_body]
fn new_message(h: &Header) -> (r: op::Message)
    requires
        h.op_code < 16,
        h.response_code < 16,
    ensures
        hickory_message_view(r) == bare_message(*h),
{
    let mut m = op::Message::new();
    let message_type = match h.message_type {
        MessageType::Query => op::MessageType::Query,
        MessageType::Response => op::MessageType::Response,
    };
    m.set_id(h.id).set_message_type(message_type).set_op_code(op::OpCode::from_u8(h.op_code));
    m.set_authoritative(h.authoritative).set_truncated(h.truncated);
    m.set_recursion_desired(h.recursion_desired).set_recursion_available(h.recursion_available);
    m.set_response_code(op::ResponseCode::from_low(h.response_code));
    m
}

/// Calls `hickory_proto::op::Message::set_edns`. The payload that the extension holds is at least
/// 512.
#[verifier::external_body]
fn set_edns(m: &mut op::Message, edns: Edns)
    ensures
        hickory_message_view(*final(m)) == (ResponseView {
            edns: Some(
                Edns {
                    dnssec_ok: edns.dnssec_ok,
                    max_payload: if edns.max_payload < 512 {
                        512
                    } else {
                        edns.max_payload
                    },
                },
            ),
            ..hickory_message_view(*old(m))
        }),
{
    let mut e = op::Edns::new();
    e.set_dnssec_ok(edns.dnssec_ok).set_max_payload(edns.max_payload);
    m.set_edns(e);
}

/// Calls `hickory_proto::op::Message::add_query` on a message without a question.
#[verifier::external_body]
fn add_query(m: &mut op::Message, name: rr::Name, qtype: u16, qclass: u16)
    requires
        hickory_message_view(*old(m)).question is None,
    ensures
        hickory_message_view(*final(m)) == (ResponseView {
            question: Some(QuestionView { name: hickory_name_view(name), qtype, qclass }),
            ..hickory_message_view(*old(m))
        }),
{
    let mut q = op::Query::query(name, qtype.into());
    q.set_query_class(qclass.into());
    m.add_query(q);
}

/// Calls `hickory_proto::op::Message::add_answer`, which adds a record behind the other answers.
#[verifier::external_body]
fn add_answer(m: &mut op::Message, name: rr::Name, ttl: u32, data: rr::RData)
    ensures
        hickory_message_view(*final(m)) == (ResponseView {
            answers: hickory_message_view(*old(m)).answers.push(
                (RecordView { name: hickory_name_view(name), ttl, data: hickory_rdata_view(data) }),
            ),
            ..hickory_message_view(*old(m))
        }),
{
    m.add_answer(rr::Record::from_rdata(name, ttl, data));
}

/// Calls `hickory_proto::op::Message::add_name_server`, which adds a record behind the others of
/// the authority section.
#[verifier::external_body]
fn add_name_server(m: &mut op::Message, name: rr::Name, ttl: u32, data: rr::RData)
    ensures
        hickory_message_view(*final(m)) == (ResponseView {
            name_servers: hickory_message_view(*old(m)).name_servers.push(
                (RecordView { name: hickory_name_view(name), ttl, data: hickory_rdata_view(data) }),
            ),
            ..hickory_message_view(*old(m))
        }),
{
    m.add_name_server(rr::Record::from_rdata(name, ttl, data));
}

/// The octets that a buffer holds, if there is one.
pub open spec fn octets_view(octets: Option<Vec<u8>>) -> Option<Seq<u8>> {
    match octets {
        Some(o) => Some(o@),
        None => None,
    }
}

/// The message holds a question, address records of the name that is asked for as answers, and
/// nothing else.
pub open spec fn is_address_reply(m: ResponseView) -> bool {
    &&& m.edns is None
    &&& m.name_servers.len() == 0
    &&& m.question is Some
    &&& forall|i: int|
        0 <= i < m.answers.len() ==> (#[trigger] m.answers[i]).data is Aaaa
            && m.answers[i].name.labels == m.question->0.name.labels
}

/// The octets that such a message takes: the header, the question with the name in full, and for
/// each address a pointer to that name, the type, class, time to live, length and address.
pub open spec fn address_reply_size(m: ResponseView) -> nat {
    12 + name_wire(m.question->0.name.labels).len() + 4 + m.answers.len() * 28
}

/// The octets of a message are no more than the message takes, where that is said.
pub open spec fn size_fits(m: ResponseView, size: Option<nat>) -> bool {
    is_address_reply(m) ==> (size matches Some(n) ==> n <= address_reply_size(m))
}

/// How many octets a buffer holds, if there is one.
pub open spec fn octets_len(octets: Option<Vec<u8>>) -> Option<nat> {
    match octets {
        Some(o) => Some(o@.len()),
        None => None,
    }
}

/// Calls `hickory_proto::serialize::binary::BinEncodable::to_bytes`. The octets depend on what
/// the message holds alone, and there are at most 65535 of them. A name that stands in the message
/// already is written as a pointer of two octets, which bounds the size of a reply that holds
/// addresses of the name that is asked for. How large other messages are is not said.
#[verifier::external_body]
fn encode(m: &op::Message) -> (r: Option<Vec<u8>>)
    ensures
        octets_view(r) == message_encoding(hickory_message_view(*m)),
        r matches Some(octets) ==> octets@.len() <= 65535,
        size_fits(hickory_message_view(*m), octets_len(r)),
{
    m.to_bytes().ok()
}

/// The parts of a request: its number, whether it desires recursion, its extension and the
/// questions, each with labels, full qualification, type and class.
pub type RequestParts = (u16, bool, Option<(bool, u16)>, Vec<(Vec<Vec<u8>>, bool, u16, u16)>);

/// The request that its parts make: the first question counts.
pub open spec fn request_read(parts: RequestParts) -> RequestView {
    RequestView {
        id: parts.0,
        recursion_desired: parts.1,
        edns: match parts.2 {
            Some(e) => Some(Edns { dnssec_ok: e.0, max_payload: e.1 }),
            None => None,
        },
        question: if parts.3@.len() > 0 {
            let q = parts.3@[0];
            Some(
                QuestionView {
                    name: NameView { labels: contents(q.0@), fqdn: q.1 },
                    qtype: q.2,
                    qclass: q.3,
                },
            )
        } else {
            None
        },
    }
}

/// The request that its parts make, if there are any.
pub open spec fn request_view(parts: Option<RequestParts>) -> Option<RequestView> {
    match parts {
        Some(p) => Some(request_read(p)),
        None => None,
    }
}

/// Calls `hickory_proto::serialize::binary::BinDecodable::from_bytes` for a message. What is read
/// depends on the octets alone, and the labels of each name are valid.
#[verifier::external_body]
fn decode(octets: &[u8]) -> (r: Option<RequestParts>)
    ensures
        request_view(r) == decoded_request(octets@),
        r matches Some(parts) ==> valid_parts(parts),
{
    let m = op::Message::from_bytes(octets).ok()?;
    let edns = m.extensions().as_ref().map(|e| (e.flags().dnssec_ok, e.max_payload()));
    let questions = m.queries().iter().map(|q| {
        let labels = q.name().iter().map(|l| l.to_vec()).collect();
        (labels, q.name().is_fqdn(), q.query_type().into(), q.query_class().into())
    });
    Some((m.id(), m.recursion_desired(), edns, questions.collect()))
}

/// The data of a record can be written: that of a type without a form of its own is not empty.
pub open spec fn writable(data: RecordDataView) -> bool {
    data matches RecordDataView::Unknown { data: octets, .. } ==> octets.len() > 0
}

/// The data of all records can be written.
pub open spec fn all_writable(records: Seq<RecordView>) -> bool {
    forall|i: int| 0 <= i < records.len() ==> writable((#[trigger] records[i]).data)
}

/// The data of a record as `hickory_proto` holds it.
fn hickory_rdata(data: &RecordData) -> (r: rr::RData)
    requires
        writable(data@),
    ensures
        hickory_rdata_view(r) == data@,
{
    match data {
        RecordData::Aaaa(octets) => aaaa_rdata(*octets),
        RecordData::Ns(name) => ns_rdata(hickory_name(name)),
        RecordData::Soa(soa) => soa_rdata(hickory_name(&soa.mname), hickory_name(&soa.rname), soa),
        RecordData::Unknown { code, data } => unknown_rdata(
            *code,
            vstd::slice::slice_to_vec(data.as_slice()),
        ),
    }
}

/// The labels of all names in the parts of a request are valid.
pub open spec fn valid_parts(parts: RequestParts) -> bool {
    forall|i: int|
        0 <= i < parts.3@.len() ==> valid_labels(
            contents((#[trigger] parts.3@[i]).0@),
        )
}

impl Request {
    /// The request that its parts make. Of several questions the first counts.
    pub fn from_parts(parts: RequestParts) -> (r: Request)
        requires
            valid_parts(parts),
        ensures
            r@ == request_read(parts),
    {
        let (id, recursion_desired, edns, mut questions) = parts;
        let edns: Option<Edns> = match edns {
            Some(e) => Some(Edns { dnssec_ok: e.0, max_payload: e.1 }),
            None => None,
        };
        let mut question: Option<Question> = None;
        if questions.len() > 0 {
            assert(valid_labels(contents(parts.3@[0].0@)));
            let (labels, fqdn, qtype, qclass) = questions.remove(0);
            if let Some(name) = DomainName::from_labels(labels, fqdn) {
                question = Some(Question { name, qtype, qclass });
            }
        }
        Request { id, recursion_desired, edns, question }
    }

    /// Reads a request from its octets.
    pub fn from_bytes(octets: &[u8]) -> (r: Option<Request>)
        ensures
            match r {
                Some(request) => decoded_request(octets@) == Some(request@),
                None => decoded_request(octets@) is None,
            },
    {
        match decode(octets) {
            Some(parts) => Some(Request::from_parts(parts)),
            None => None,
        }
    }
}

impl Response {
    /// The codes fit in the header, the payload that the extension offers is large enough to be
    /// offered, and the data of the records can be written.
    pub open spec fn can_be_written(&self) -> bool {
        &&& self.op_code < 16
        &&& self.response_code < 16
        &&& self.edns matches Some(e) ==> e.max_payload >= 512
        &&& all_writable(self@.answers)
        &&& all_writable(self@.name_servers)
    }

    /// Writes the octets of the response.
    pub fn to_bytes(&self) -> (r: Option<Vec<u8>>)
        requires
            self.can_be_written(),
        ensures
            octets_view(r) == message_encoding(self@),
            r matches Some(octets) ==> octets@.len() <= 65535,
            size_fits(self@, octets_len(r)),
    {
        let mut m = new_message(
            &Header {
                id: self.id,
                message_type: self.message_type,
                op_code: self.op_code,
                authoritative: self.authoritative,
                truncated: self.truncated,
                recursion_desired: self.recursion_desired,
                recursion_available: self.recursion_available,
                response_code: self.response_code,
            },
        );
        if let Some(question) = &self.question {
            add_query(&mut m, hickory_name(&question.name), question.qtype, question.qclass);
        }
        if let Some(edns) = self.edns {
            set_edns(&mut m, edns);
        }
        let ghost head = hickory_message_view(m);
        let mut i: usize = 0;
        while i < self.answers.len()
            invariant
                i <= self.answers@.len(),
                all_writable(self@.answers),
                hickory_message_view(m) == (ResponseView {
                    answers: record_views(self.answers@).take(i as int),
                    ..head
                }),
            decreases self.answers.len() - i,
        {
            let record: &Record = &self.answers[i];
            assert(self@.answers[i as int] == record@);
            add_answer(
                &mut m,
                hickory_name(&record.name),
                record.ttl,
                hickory_rdata(&record.data),
            );
            assert(record_views(self.answers@).take(i + 1) =~= record_views(self.answers@).take(
                i as int,
            ).push(record@));
            i += 1;
        }
        assert(record_views(self.answers@).take(i as int) =~= record_views(self.answers@));
        let mut j: usize = 0;
        while j < self.name_servers.len()
            invariant
                j <= self.name_servers@.len(),
                all_writable(self@.name_servers),
                hickory_message_view(m) == (ResponseView {
                    answers: record_views(self.answers@),
                    name_servers: record_views(self.name_servers@).take(j as int),
                    ..head
                }),
            decreases self.name_servers.len() - j,
        {
            let record: &Record = &self.name_servers[j];
            assert(self@.name_servers[j as int] == record@);
            add_name_server(
                &mut m,
                hickory_name(&record.name),
                record.ttl,
                hickory_rdata(&record.data),
            );
            assert(record_views(self.name_servers@).take(j + 1) =~= record_views(
                self.name_servers@,
            ).take(j as int).push(record@));
            j += 1;
        }
        assert(record_views(self.name_servers@).take(j as int) =~= record_views(
            self.name_servers@,
        ));
        assert(hickory_message_view(m) =~= self@);
        encode(&m)
    }
}

/// Octets behind their number in 16 bits, as messages stand in a stream.
pub open spec fn framed(octets: Seq<u8>) -> Seq<u8> {
    be16(octets.len() as u16) + octets
}

/// The number that two octets write.
pub open spec fn framed_len(prefix: Seq<u8>) -> int {
    prefix[0] * 256 + prefix[1]
}

/// Puts octets behind their number.
pub fn frame(octets: &[u8]) -> (r: Vec<u8>)
    requires
        octets@.len() <= 65535,
    ensures
        r@ == framed(octets@),
{
    let mut r: Vec<u8> = Vec::new();
    push_be16(&mut r, octets.len() as u16);
    append(&mut r, octets);
    assert(r@ =~= framed(octets@));
    r
}

/// The number of octets that follow in a stream.
pub fn frame_len(prefix: [u8; 2]) -> (r: usize)
    ensures
        r == framed_len(prefix@),
{
    prefix[0] as usize * 256 + prefix[1] as usize
}

/// Law: what stands in front of framed octets is their number, and behind it stand the octets.
pub proof fn law_frame_reads_back(octets: Seq<u8>)
    requires
        octets.len() <= 65535,
    ensures
        framed_len(framed(octets).take(2)) == octets.len(),
        framed(octets).skip(2) == octets,
{
    let n = octets.len() as u16;
    let all = framed(octets);
    assert(all.take(2)[0] == be16(n)[0]);
    assert(all.take(2)[1] == be16(n)[1]);
    assert(all.skip(2) =~= octets);
}

} // verus!
