//! The DNS server: what it answers to a request.
use std::sync::Arc;

use vstd::prelude::*;
use vstd::utf8::decode_utf8;
use vstd::utf8::valid_utf8;

use crate::address::dns_listen_address;
use crate::address::set_or;
use crate::bytes::lower_octets;
use crate::clock::duration_secs;
use crate::clock::Timestamp;
use crate::clock::TimestampView;
use crate::config::DnsConfig;
use crate::dnssec::could_not_sign;
use crate::dnssec::dnskey_wire;
use crate::dnssec::is_some_rrsig;
use crate::dnssec::DnssecSigner;
use crate::dnssec::SignError;
use crate::dnssec::SignerView;
use crate::idprov::strings;
use crate::key_file::exports;
use crate::key_file::generate_dnssec_key;
use crate::key_file::generation_failed;
use crate::key_file::load_dnssec_key;
use crate::key_file::loads_as;
use crate::key_file::KeyError;
use crate::key_file::KeyFault;
use crate::message::all_writable;
use crate::message::message_encoding;
use crate::message::octets_view;
use crate::message::size_fits;
use crate::message::Edns;
use crate::message::MessageType;
use crate::message::Question;
use crate::message::QuestionView;
use crate::message::Request;
use crate::message::RequestView;
use crate::message::Response;
use crate::message::ResponseView;
use crate::message::NOT_IMPLEMENTED;
use crate::message::NO_ERROR;
use crate::message::NX_DOMAIN;
use crate::message::OP_QUERY;
use crate::message::REFUSED;
use crate::name::name_of;
use crate::name::black_lies_next;
use crate::name::lower_labels;
use crate::name::shown;
use crate::name::zone_of;
use crate::name::DomainName;
use crate::name::NameView;
use crate::record::record_views;
use crate::record::Record;
use crate::record::RecordData;
use crate::record::RecordDataView;
use crate::record::RecordView;
use crate::record::Soa;
use crate::record::SoaView;
use crate::record::CLASS_IN;
use crate::record::TYPE_AAAA;
use crate::record::TYPE_DNSKEY;
use crate::record::TYPE_NS;
use crate::record::TYPE_NSEC;
use crate::record::TYPE_RRSIG;
use crate::record::TYPE_SOA;
use crate::store::Store;
use crate::task::time_view;
use crate::task::Outcome;
use crate::task::OutcomeView;
use crate::text::decimal;
use crate::text::joined;
use crate::text::lowered;
use crate::text::text_from_utf8;
use crate::zone::dnskey_record;
use crate::zone::make_nsec;
use crate::zone::make_section;
use crate::zone::nsec_record;
use crate::zone::rrset_views;
use crate::zone::section;
use crate::zone::signature_views;
use crate::zone::Rrset;
use crate::zone::RrsetView;
use crate::zone::ZONE_TTL;

verus! {

/// How large an answer may be for a client that does not tell.
pub const DEFAULT_PAYLOAD: u16 = 512;

/// How large an answer the server offers to take.
pub const OFFERED_PAYLOAD: u16 = 4096;

/// What a server knows: its zone, as a name and as it was configured, the time to live of
/// addresses, the name servers, the mailbox of the one responsible, and its signer.
#[verifier::ext_equal]
pub struct ServerView {
    pub domain: NameView,
    pub domain_text: Seq<char>,
    pub ttl: u32,
    pub ns: Seq<Seq<char>>,
    pub mname: Seq<char>,
    pub signer: Option<SignerView>,
}

/// What the store was asked on behalf of a request, and what it said: the address of the name
/// that was asked for, the latest expiration of all names, and the address once more.
pub struct Known {
    pub address: Option<Option<[u8; 16]>>,
    pub latest: Option<Option<Timestamp>>,
    pub address_again: Option<Option<[u8; 16]>>,
}

/// What is known from the store.
#[verifier::ext_equal]
pub struct KnownView {
    pub address: Option<Option<Seq<u8>>>,
    pub latest: Option<Option<TimestampView>>,
    pub address_again: Option<Option<Seq<u8>>>,
}

/// The octets of an optional address.
pub open spec fn address_view(address: Option<[u8; 16]>) -> Option<Seq<u8>> {
    match address {
        Some(octets) => Some(octets@),
        None => None,
    }
}

impl View for Known {
    type V = KnownView;

    open spec fn view(&self) -> KnownView {
        KnownView {
            address: match self.address {
                Some(address) => Some(address_view(address)),
                None => None,
            },
            latest: match self.latest {
                Some(t) => Some(time_view(t)),
                None => None,
            },
            address_again: match self.address_again {
                Some(address) => Some(address_view(address)),
                None => None,
            },
        }
    }
}

/// A response whose record sets are not signed yet.
pub struct Draft {
    pub head: Response,
    pub answers: Vec<Rrset>,
    pub authority: Vec<Rrset>,
}

/// What a response holds whose record sets are not signed yet.
#[verifier::ext_equal]
pub struct DraftView {
    pub head: ResponseView,
    pub answers: Seq<RrsetView>,
    pub authority: Seq<RrsetView>,
}

impl View for Draft {
    type V = DraftView;

    open spec fn view(&self) -> DraftView {
        DraftView {
            head: self.head@,
            answers: rrset_views(self.answers@),
            authority: rrset_views(self.authority@),
        }
    }
}

/// How a request goes on: a question to the store, a response, or a response to be signed.
pub enum Plan {
    /// The address of an id is needed.
    Lookup(String),
    /// The latest expiration of all names is needed.
    Latest,
    /// The response needs a name server, and none is configured.
    NoNameServer,
    /// The response is final.
    Reply(Response),
    /// The response is complete but for signatures and for its size.
    Sign(Draft),
}

/// How a request goes on.
#[verifier::ext_equal]
pub enum PlanView {
    Lookup(Seq<char>),
    Latest,
    NoNameServer,
    Reply(ResponseView),
    Sign(DraftView),
}

impl View for Plan {
    type V = PlanView;

    open spec fn view(&self) -> PlanView {
        match self {
            Plan::Lookup(id) => PlanView::Lookup(id@),
            Plan::Latest => PlanView::Latest,
            Plan::NoNameServer => PlanView::NoNameServer,
            Plan::Reply(response) => PlanView::Reply(response@),
            Plan::Sign(draft) => PlanView::Sign(draft@),
        }
    }
}

/// The request asks for DNSSEC records.
pub open spec fn wants_dnssec(request: RequestView) -> bool {
    request.edns matches Some(edns) && edns.dnssec_ok
}

/// How large the answer to a request may be.
pub open spec fn payload_limit(request: RequestView) -> u16 {
    match request.edns {
        Some(edns) => edns.max_payload,
        None => DEFAULT_PAYLOAD,
    }
}

/// The response that every answer begins with.
pub open spec fn bare_response(request: RequestView) -> ResponseView {
    ResponseView {
        id: request.id,
        message_type: MessageType::Response,
        op_code: OP_QUERY,
        authoritative: true,
        truncated: false,
        recursion_desired: request.recursion_desired,
        recursion_available: false,
        response_code: NO_ERROR,
        edns: if wants_dnssec(request) {
            Some(Edns { dnssec_ok: true, max_payload: OFFERED_PAYLOAD })
        } else {
            None
        },
        question: None,
        answers: seq![],
        name_servers: seq![],
    }
}

/// The response without records that repeats the question.
pub open spec fn asked_response(request: RequestView) -> ResponseView {
    ResponseView { question: request.question, ..bare_response(request) }
}

/// The name is the zone itself.
pub open spec fn is_apex(server: ServerView, name: NameView) -> bool {
    shown(NameView { labels: lower_labels(name.labels), fqdn: name.fqdn }) == lowered(
        server.domain_text + "."@,
    )
}

/// The name lies in the zone.
pub open spec fn in_zone(server: ServerView, name: NameView) -> bool {
    is_apex(server, name) || zone_of(server.domain.labels, name.labels)
}

/// The id to look up for a name: its first label in small letters, if the name has two labels and
/// the first is text. The ASCII letters are made small before the others, so that their case
/// makes no difference.
pub open spec fn id_of(name: NameView) -> Option<Seq<char>> {
    let first = lower_octets(name.labels[0]);
    if name.labels.len() >= 2 && valid_utf8(first) {
        Some(lowered(decode_utf8(first)))
    } else {
        None
    }
}

/// A name from the configuration, or the zone where it is none.
pub open spec fn configured_name(server: ServerView, text: Seq<char>) -> NameView {
    match name_of(text) {
        Some(name) => name,
        None => server.domain,
    }
}

/// The serial number of the zone: the latest expiration in 32 bits, or one where there is none.
pub open spec fn serial(latest: Option<TimestampView>) -> u32 {
    match latest {
        Some(t) => (t.secs % 0x1_0000_0000) as u32,
        None => 1,
    }
}

/// The start of authority record of the zone.
pub open spec fn soa_record(server: ServerView, latest: Option<TimestampView>) -> RecordView {
    RecordView {
        name: server.domain,
        ttl: ZONE_TTL,
        data: RecordDataView::Soa(
            SoaView {
                mname: configured_name(server, server.ns[0]),
                rname: configured_name(server, server.mname),
                serial: serial(latest),
                refresh: 3600,
                retry: 600,
                expire: 604800,
                minimum: 3600,
            },
        ),
    }
}

/// The name server records of the zone, one for each that is a name.
pub open spec fn ns_records(server: ServerView, ns: Seq<Seq<char>>) -> Seq<RecordView>
    decreases ns.len(),
{
    if ns.len() == 0 {
        seq![]
    } else {
        let before = ns_records(server, ns.drop_last());
        match name_of(ns.last()) {
            Some(name) => before.push(
                RecordView {
                    name: server.domain,
                    ttl: ZONE_TTL,
                    data: RecordDataView::Ns(name),
                },
            ),
            None => before,
        }
    }
}

/// The address record of a name.
pub open spec fn aaaa_record(server: ServerView, name: NameView, address: Seq<u8>) -> RecordView {
    RecordView { name, ttl: server.ttl, data: RecordDataView::Aaaa(address) }
}

/// A set of one record that the zone has of itself.
pub open spec fn zone_rrset(server: ServerView, record: RecordView) -> RrsetView {
    RrsetView { records: seq![record], owner: server.domain, ttl: ZONE_TTL }
}

/// The types of a name in the record that proves that it has no others.
pub open spec fn existing_types(apex: bool, present: bool) -> Seq<u16> {
    if apex {
        seq![TYPE_SOA, TYPE_NS, TYPE_DNSKEY, TYPE_RRSIG, TYPE_NSEC]
    } else if present {
        seq![TYPE_AAAA, TYPE_RRSIG, TYPE_NSEC]
    } else {
        seq![TYPE_RRSIG, TYPE_NSEC]
    }
}

/// The record sets that answer a question in the zone, if what is known is enough: none of the
/// type that is asked for leaves the answer empty.
pub open spec fn answer_plan(server: ServerView, q: QuestionView, known: KnownView) -> Result<
    Seq<RrsetView>,
    PlanView,
> {
    let apex = is_apex(server, q.name);
    if q.qtype == TYPE_DNSKEY && apex {
        match server.signer {
            Some(signer) => Ok(
                seq![
                    zone_rrset(
                        server,
                        dnskey_record(server.domain, dnskey_wire(signer.public_key)),
                    ),
                ],
            ),
            None => Ok(seq![]),
        }
    } else if q.qtype == TYPE_NS && apex {
        let records = ns_records(server, server.ns);
        if records.len() > 0 {
            Ok(seq![RrsetView { records, owner: server.domain, ttl: ZONE_TTL }])
        } else {
            Ok(seq![])
        }
    } else if q.qtype == TYPE_SOA && apex {
        match known.latest {
            None => Err(PlanView::Latest),
            Some(latest) => if server.ns.len() == 0 {
                Err(PlanView::NoNameServer)
            } else {
                Ok(seq![zone_rrset(server, soa_record(server, latest))])
            },
        }
    } else if q.qtype == TYPE_AAAA {
        match (id_of(q.name), known.address) {
            (None, _) => Ok(seq![]),
            (Some(id), None) => Err(PlanView::Lookup(id)),
            (Some(_), Some(None)) => Ok(seq![]),
            (Some(_), Some(Some(address))) => Ok(
                seq![
                    RrsetView {
                        records: seq![aaaa_record(server, q.name, address)],
                        owner: q.name,
                        ttl: server.ttl,
                    },
                ],
            ),
        }
    } else {
        Ok(seq![])
    }
}

/// What answers a question in the zone for which there are no records: the start of authority,
/// and for a client that asks for DNSSEC the proof of what the name has.
pub open spec fn negative_plan(
    server: ServerView,
    request: RequestView,
    q: QuestionView,
    known: KnownView,
) -> PlanView {
    let apex = is_apex(server, q.name);
    match known.latest {
        None => PlanView::Latest,
        Some(latest) => if server.ns.len() == 0 {
            PlanView::NoNameServer
        } else if !apex && id_of(q.name) is Some && known.address_again is None {
            PlanView::Lookup(id_of(q.name)->0)
        } else {
            let present = apex || (id_of(q.name) is Some && known.address_again->0 is Some);
            let soa = zone_rrset(server, soa_record(server, latest));
            let nsec = RrsetView {
                records: seq![
                    nsec_record(q.name, black_lies_next(q.name), existing_types(apex, present)),
                ],
                owner: q.name,
                ttl: ZONE_TTL,
            };
            PlanView::Sign(
                DraftView {
                    head: ResponseView {
                        response_code: if present {
                            NO_ERROR
                        } else {
                            NX_DOMAIN
                        },
                        ..asked_response(request)
                    },
                    answers: seq![],
                    authority: if wants_dnssec(request) {
                        seq![soa, nsec]
                    } else {
                        seq![soa]
                    },
                },
            )
        },
    }
}

/// How a request goes on.
pub open spec fn plan_of(server: ServerView, request: RequestView, known: KnownView) -> PlanView {
    match request.question {
        None => PlanView::Reply(bare_response(request)),
        Some(q) => if q.qclass != CLASS_IN {
            PlanView::Reply(
                ResponseView { response_code: NOT_IMPLEMENTED, ..asked_response(request) },
            )
        } else if !in_zone(server, q.name) {
            PlanView::Reply(
                ResponseView {
                    authoritative: false,
                    response_code: REFUSED,
                    ..asked_response(request)
                },
            )
        } else {
            match answer_plan(server, q, known) {
                Err(plan) => plan,
                Ok(answers) => if answers.len() == 0 {
                    negative_plan(server, request, q, known)
                } else {
                    PlanView::Sign(
                        DraftView {
                            head: asked_response(request),
                            answers,
                            authority: seq![],
                        },
                    )
                },
            }
        },
    }
}

/// The signature of a record set, where there is one, was asked for and is one of the signer of
/// the zone. Where it was asked for and there is a signer, it is missing only because the attempt
/// to sign this very set failed.
pub open spec fn signature_fits(
    server: ServerView,
    request: RequestView,
    rrset: RrsetView,
    signature: Option<Seq<u8>>,
) -> bool {
    match signature {
        Some(rdata) => {
            &&& wants_dnssec(request)
            &&& server.signer is Some
            &&& is_some_rrsig(rdata, server.signer->0, rrset.records, server.domain, rrset.ttl)
        },
        None => wants_dnssec(request) && server.signer is Some ==> could_not_sign(
            server.signer->0,
            rrset.records,
            server.domain,
            rrset.ttl,
        ),
    }
}

/// `attempt` may come of signing a record set: it is made exactly where the request asks for
/// DNSSEC and the zone has a signer. A signature is one of that signer, and only a set without
/// records is refused as empty.
pub open spec fn attempt_fits(
    server: ServerView,
    request: RequestView,
    rrset: RrsetView,
    attempt: Option<Result<Vec<u8>, SignError>>,
) -> bool {
    &&& attempt is Some <==> wants_dnssec(request) && server.signer is Some
    &&& attempt matches Some(Ok(rdata)) ==> {
        &&& rrset.records.len() > 0
        &&& is_some_rrsig(rdata@, server.signer->0, rrset.records, server.domain, rrset.ttl)
    }
    &&& attempt matches Some(Err(e)) ==> {
        &&& (e == SignError::EmptyRrset) == (rrset.records.len() == 0)
        &&& could_not_sign(server.signer->0, rrset.records, server.domain, rrset.ttl)
    }
}

/// Each set has a signature that fits, or none.
pub open spec fn signatures_fit(
    server: ServerView,
    request: RequestView,
    rrsets: Seq<RrsetView>,
    signatures: Seq<Option<Seq<u8>>>,
) -> bool {
    &&& signatures.len() == rrsets.len()
    &&& forall|i: int|
        0 <= i < rrsets.len() ==> signature_fits(
            server,
            request,
            rrsets[i],
            #[trigger] signatures[i],
        )
}

/// The response that a draft makes with its signatures.
pub open spec fn signed(
    draft: DraftView,
    answer_signatures: Seq<Option<Seq<u8>>>,
    authority_signatures: Seq<Option<Seq<u8>>>,
) -> ResponseView {
    ResponseView {
        answers: section(draft.answers, answer_signatures),
        name_servers: section(draft.authority, authority_signatures),
        ..draft.head
    }
}

/// The response that stands for one that is too large: its header, with the mark that it was cut
/// down, and its question.
pub open spec fn truncated_response(response: ResponseView) -> ResponseView {
    ResponseView { truncated: true, answers: seq![], name_servers: seq![], ..response }
}

/// The response that is sent for `response` when it takes `size` octets, as far as it can be
/// written at all.
pub open spec fn fitted(
    request: RequestView,
    response: ResponseView,
    size: Option<nat>,
) -> ResponseView {
    if size matches Some(n) && n > payload_limit(request) {
        truncated_response(response)
    } else {
        response
    }
}

/// The number of octets of a response, if it can be written.
pub open spec fn size_of_response(response: ResponseView) -> Option<nat> {
    match message_encoding(response) {
        Some(octets) => Some(octets.len()),
        None => None,
    }
}

/// `response` may be the answer that a draft ends in: with signatures, and cut down where it is
/// too large. The size of a full response that holds addresses of the name alone has a bound.
pub open spec fn answered(
    server: ServerView,
    request: RequestView,
    draft: DraftView,
    response: ResponseView,
) -> bool {
    exists|full: ResponseView| #[trigger]
        signed_by(server, request, draft, full) && response == fitted(
            request,
            full,
            size_of_response(full),
        ) && size_fits(full, size_of_response(full))
}

/// `full` is the response that a draft makes with signatures that fit.
pub open spec fn signed_by(
    server: ServerView,
    request: RequestView,
    draft: DraftView,
    full: ResponseView,
) -> bool {
    exists|a: Seq<Option<Seq<u8>>>, b: Seq<Option<Seq<u8>>>|
        full == #[trigger] signed(draft, a, b) && signatures_fit(server, request, draft.answers, a)
            && signatures_fit(server, request, draft.authority, b)
}

proof fn lemma_section_writable(rrsets: Seq<RrsetView>, signatures: Seq<Option<Seq<u8>>>)
    requires
        rrsets.len() == signatures.len(),
        forall|i: int| 0 <= i < rrsets.len() ==> all_writable((#[trigger] rrsets[i]).records),
        forall|i: int|
            0 <= i < signatures.len() ==> ((#[trigger] signatures[i]) matches Some(rdata)
                ==> rdata.len() > 0),
    ensures
        all_writable(section(rrsets, signatures)),
    decreases rrsets.len(),
{
    if rrsets.len() > 0 {
        let front = rrsets.drop_last();
        let front_signatures = signatures.drop_last();
        assert forall|i: int| 0 <= i < front.len() implies all_writable(
            (#[trigger] front[i]).records,
        ) by {
            assert(front[i] == rrsets[i]);
        }
        assert forall|i: int| 0 <= i < front_signatures.len() implies ((
        #[trigger] front_signatures[i]) matches Some(rdata) ==> rdata.len() > 0) by {
            assert(front_signatures[i] == signatures[i]);
        }
        lemma_section_writable(front, front_signatures);
        let last = rrsets.len() - 1;
        assert(all_writable(rrsets[last].records));
        assert(signatures[last] == signatures.last());
    }
}

proof fn lemma_ns_records_writable(server: ServerView, ns: Seq<Seq<char>>)
    ensures
        all_writable(ns_records(server, ns)),
    decreases ns.len(),
{
    if ns.len() > 0 {
        lemma_ns_records_writable(server, ns.drop_last());
    }
}

/// The records of a draft, and those of signatures that fit, can be written.
proof fn lemma_signed_writable(
    server: ServerView,
    request: RequestView,
    known: KnownView,
    draft: DraftView,
    a: Seq<Option<Seq<u8>>>,
    b: Seq<Option<Seq<u8>>>,
)
    requires
        plan_of(server, request, known) == PlanView::Sign(draft),
        signatures_fit(server, request, draft.answers, a),
        signatures_fit(server, request, draft.authority, b),
    ensures
        all_writable(signed(draft, a, b).answers),
        all_writable(signed(draft, a, b).name_servers),
{
    lemma_ns_records_writable(server, server.ns);
    assert forall|i: int| 0 <= i < draft.answers.len() implies all_writable(
        (#[trigger] draft.answers[i]).records,
    ) by {}
    assert forall|i: int| 0 <= i < draft.authority.len() implies all_writable(
        (#[trigger] draft.authority[i]).records,
    ) by {}
    assert forall|i: int| 0 <= i < a.len() implies ((#[trigger] a[i]) matches Some(rdata)
        ==> rdata.len() > 0) by {
        assert(signature_fits(server, request, draft.answers[i], a[i]));
    }
    assert forall|i: int| 0 <= i < b.len() implies ((#[trigger] b[i]) matches Some(rdata)
        ==> rdata.len() > 0) by {
        assert(signature_fits(server, request, draft.authority[i], b[i]));
    }
    lemma_section_writable(draft.answers, a);
    lemma_section_writable(draft.authority, b);
}

/// Why a server could not be set up.
pub enum DnsError {
    /// The configured domain is no name.
    InvalidDomain(String),
    /// The signing key could not be made or read.
    Key(KeyError),
}

impl DnsError {
    /// What the error says.
    pub open spec fn text(self) -> Seq<char> {
        match self {
            DnsError::InvalidDomain(domain) => "Invalid domain: "@ + domain@,
            DnsError::Key(e) => e.text(),
        }
    }

    /// The message of the error.
    pub fn message(&self) -> (r: String)
        ensures
            r@ == self.text(),
    {
        match self {
            DnsError::InvalidDomain(domain) => joined("Invalid domain: ", domain.as_str()),
            DnsError::Key(e) => e.message(),
        }
    }
}

/// Answers the requests for a zone.
pub struct DnsServer {
    config: DnsConfig,
    store: Arc<Store>,
    dnssec: Option<DnssecSigner>,
    domain: DomainName,
}

impl View for DnsServer {
    type V = ServerView;

    closed spec fn view(&self) -> ServerView {
        ServerView {
            domain: self.domain@,
            domain_text: self.store@.domain,
            ttl: (duration_secs(self.store@.ttl) % 0x1_0000_0000) as u32,
            ns: strings(self.config.ns@),
            mname: self.config.mname@,
            signer: match self.dnssec {
                Some(signer) => Some(signer@),
                None => None,
            },
        }
    }
}

/// The server is set up with these settings for this store, apart from its signer.
pub open spec fn is_set_up(server: ServerView, config: DnsConfig, store: Store) -> bool {
    &&& name_of(store@.domain) == Some(server.domain)
    &&& server.domain_text == store@.domain
    &&& server.ttl == duration_secs(store@.ttl) % 0x1_0000_0000
    &&& server.ns == strings(config.ns@)
    &&& server.mname == config.mname@
}

impl DnsServer {
    /// Sets up a server. Where no signing key is configured, a new one is made, and the text to
    /// configure for it is given too.
    pub fn new(config: DnsConfig, store: Arc<Store>) -> (r: Result<
        (DnsServer, Option<String>),
        DnsError,
    >)
        ensures
            match r {
                Ok((server, export)) => {
                    &&& is_set_up(server@, config, *store)
                    &&& server.address_text() == set_or(config.address, "[::]"@) + ":"@ + decimal(
                        config.port as nat,
                    )
                    &&& server@.signer is Some
                    &&& match config.dnssec_key {
                        Some(key) => export is None && loads_as(
                            key@,
                            Ok::<SignerView, KeyFault>(server@.signer->0),
                        ),
                        None => export matches Some(text) && exports(text@, server@.signer->0),
                    }
                },
                Err(DnsError::InvalidDomain(domain)) => {
                    &&& name_of(store@.domain) is None
                    &&& domain@ == store@.domain
                },
                Err(DnsError::Key(e)) => {
                    &&& name_of(store@.domain) is Some
                    &&& match config.dnssec_key {
                        Some(key) => loads_as(key@, Err::<SignerView, KeyFault>(e.fault())),
                        None => generation_failed(e.fault()),
                    }
                },
            },
    {
        let domain: DomainName = match DomainName::from_ascii(store.domain()) {
            Some(domain) => domain,
            None => {
                return Err(DnsError::InvalidDomain(store.domain().to_string()));
            },
        };
        let (signer, export) = match &config.dnssec_key {
            Some(key) => match load_dnssec_key(key.as_str()) {
                Ok(signer) => (signer, None),
                Err(e) => {
                    return Err(DnsError::Key(e));
                },
            },
            None => match generate_dnssec_key() {
                Ok((signer, export)) => (signer, Some(export)),
                Err(e) => {
                    return Err(DnsError::Key(e));
                },
            },
        };
        Ok((DnsServer { config, store, dnssec: Some(signer), domain }, export))
    }

    /// The signer of the zone.
    pub fn signer(&self) -> (r: &Option<DnssecSigner>)
        ensures
            match r {
                Some(signer) => self@.signer == Some(signer@),
                None => self@.signer is None,
            },
    {
        &self.dnssec
    }

    /// Where the server listens.
    pub fn listen_address(&self) -> (r: String)
        ensures
            r@ == self.address_text(),
    {
        dns_listen_address(&self.config.address, self.config.port)
    }

    /// Where the server listens: the address that is set, or all, and the port.
    pub closed spec fn address_text(&self) -> Seq<char> {
        set_or(self.config.address, "[::]"@) + ":"@ + decimal(self.config.port as nat)
    }

    /// The zone.
    pub fn domain(&self) -> (r: &DomainName)
        ensures
            r@ == self@.domain,
    {
        &self.domain
    }

    fn name_or_domain(&self, text: &str) -> (r: DomainName)
        ensures
            r@ == configured_name(self@, text@),
    {
        match DomainName::from_ascii(text) {
            Some(name) => name,
            None => self.domain.clone(),
        }
    }

    /// The start of authority record, for the latest expiration of all names.
    pub fn get_soa(&self, latest: Option<Timestamp>) -> (r: Record)
        requires
            self@.ns.len() > 0,
        ensures
            r@ == soa_record(self@, time_view(latest)),
    {
        let serial: u32 = match latest {
            Some(t) => truncate_seconds(t.timestamp()),
            None => 1,
        };
        assert(self@.ns[0] == self.config.ns@[0]@);
        let mname: DomainName = self.name_or_domain(self.config.ns[0].as_str());
        let rname: DomainName = self.name_or_domain(self.config.mname.as_str());
        let soa = Soa {
            mname,
            rname,
            serial,
            refresh: 3600,
            retry: 600,
            expire: 604800,
            minimum: 3600,
        };
        Record { name: self.domain.clone(), ttl: ZONE_TTL, data: RecordData::Soa(soa) }
    }

    /// The record that publishes the key of the zone, if it has one.
    pub fn get_dnskey(&self) -> (r: Option<Record>)
        ensures
            match r {
                Some(record) => self@.signer is Some && record@ == dnskey_record(
                    self@.domain,
                    dnskey_wire(self@.signer->0.public_key),
                ),
                None => self@.signer is None,
            },
    {
        match &self.dnssec {
            Some(signer) => Some(
                Record {
                    name: self.domain.clone(),
                    ttl: ZONE_TTL,
                    data: RecordData::Unknown {
                        code: TYPE_DNSKEY,
                        data: vstd::slice::slice_to_vec(signer.dnskey_rdata()),
                    },
                },
            ),
            None => None,
        }
    }

    /// The name server records of the zone.
    pub fn get_ns_records(&self) -> (r: Vec<Record>)
        ensures
            record_views(r@) == ns_records(self@, self@.ns),
    {
        let ghost all = self@.ns;
        let mut r: Vec<Record> = Vec::new();
        let mut i: usize = 0;
        assert(record_views(r@) =~= ns_records(self@, all.take(0)));
        while i < self.config.ns.len()
            invariant
                i <= self.config.ns@.len(),
                all == self@.ns,
                all == strings(self.config.ns@),
                record_views(r@) == ns_records(self@, all.take(i as int)),
            decreases self.config.ns.len() - i,
        {
            let ghost so_far = r@;
            proof {
                let next = all.take(i + 1);
                assert(next.drop_last() =~= all.take(i as int));
                assert(next.last() == self.config.ns@[i as int]@);
            }
            if let Some(name) = DomainName::from_ascii(self.config.ns[i].as_str()) {
                let record = Record {
                    name: self.domain.clone(),
                    ttl: ZONE_TTL,
                    data: RecordData::Ns(name),
                };
                r.push(record);
                assert(record_views(r@) =~= record_views(so_far).push(record@));
            }
            i += 1;
        }
        assert(all.take(i as int) =~= all);
        r
    }

    /// The id to look up for a name.
    pub fn resolve_aaaa(name: &DomainName) -> (r: Option<String>)
        ensures
            match r {
                Some(id) => id_of(name@) == Some(id@),
                None => id_of(name@) is None,
            },
    {
        let name: DomainName = name.to_lowercase();
        let labels: &Vec<Vec<u8>> = name.labels();
        if labels.len() < 2 {
            return None;
        }
        match text_from_utf8(vstd::slice::slice_to_vec(labels[0].as_slice())) {
            Ok(label) => Some(label.as_str().to_lowercase()),
            Err(_) => None,
        }
    }

    /// Whether a name is the zone itself.
    pub fn is_main(&self, name: &DomainName) -> (r: bool)
        ensures
            r == is_apex(self@, name@),
    {
        let main_domain: String = joined(self.store.domain(), ".");
        let asked: String = name.to_lowercase().text();
        asked == main_domain.as_str().to_lowercase()
    }
}

/// The seconds in 32 bits, with what lies above cut off.
fn truncate_seconds(secs: i64) -> (r: u32)
    ensures
        r == secs as int % 0x1_0000_0000,
{
    let low: i64 = if secs >= 0 {
        secs % 0x1_0000_0000
    } else {
        0xffff_ffff - (-(secs + 1)) % 0x1_0000_0000
    };
    low as u32
}

/// The response that every answer begins with.
fn begin_response(request: &Request) -> (r: Response)
    ensures
        r@ == bare_response(request@),
{
    let edns: Option<Edns> = match request.edns {
        Some(edns) => if edns.dnssec_ok {
            Some(Edns { dnssec_ok: true, max_payload: OFFERED_PAYLOAD })
        } else {
            None
        },
        None => None,
    };
    let r = Response {
        id: request.id,
        message_type: MessageType::Response,
        op_code: OP_QUERY,
        authoritative: true,
        truncated: false,
        recursion_desired: request.recursion_desired,
        recursion_available: false,
        response_code: NO_ERROR,
        edns,
        question: None,
        answers: Vec::new(),
        name_servers: Vec::new(),
    };
    assert(r@ =~= bare_response(request@));
    r
}

/// The response without records that repeats the question.
fn begin_answer(request: &Request) -> (r: Response)
    ensures
        r@ == asked_response(request@),
{
    let mut r: Response = begin_response(request);
    if let Some(question) = &request.question {
        r.question = Some(question.clone());
    }
    assert(r@ =~= asked_response(request@));
    r
}

fn one_rrset(record: Record, owner: DomainName, ttl: u32) -> (r: Vec<Rrset>)
    ensures
        rrset_views(r@) == seq![
            RrsetView { records: seq![record@], owner: owner@, ttl },
        ],
{
    let records: Vec<Record> = vec![record];
    assert(record_views(records@) =~= seq![record@]);
    rrsets_of(records, owner, ttl)
}

fn rrsets_of(records: Vec<Record>, owner: DomainName, ttl: u32) -> (r: Vec<Rrset>)
    ensures
        rrset_views(r@) == seq![
            RrsetView { records: record_views(records@), owner: owner@, ttl },
        ],
{
    let rrset = Rrset { records, owner, ttl };
    let r: Vec<Rrset> = vec![rrset];
    assert(rrset_views(r@) =~= seq![rrset@]);
    r
}

fn no_rrset() -> (r: Vec<Rrset>)
    ensures
        rrset_views(r@) == Seq::<RrsetView>::empty(),
{
    let r: Vec<Rrset> = Vec::new();
    assert(rrset_views(r@) =~= Seq::<RrsetView>::empty());
    r
}

impl DnsServer {
    /// The record sets that answer a question in the zone, or what is needed to tell them.
    fn plan_answer(&self, q: &Question, apex: bool, known: &Known) -> (r: Result<Vec<Rrset>, Plan>)
        requires
            apex == is_apex(self@, q@.name),
        ensures
            match r {
                Ok(rrsets) => answer_plan(self@, q@, known@) == Ok::<Seq<RrsetView>, PlanView>(
                    rrset_views(rrsets@),
                ),
                Err(plan) => answer_plan(self@, q@, known@) == Err::<Seq<RrsetView>, PlanView>(
                    plan@,
                ),
            },
    {
        if q.qtype == TYPE_DNSKEY && apex {
            match self.get_dnskey() {
                Some(record) => Ok(one_rrset(record, self.domain.clone(), ZONE_TTL)),
                None => Ok(no_rrset()),
            }
        } else if q.qtype == TYPE_NS && apex {
            let records: Vec<Record> = self.get_ns_records();
            assert(records@.len() == record_views(records@).len());
            if records.len() > 0 {
                Ok(rrsets_of(records, self.domain.clone(), ZONE_TTL))
            } else {
                Ok(no_rrset())
            }
        } else if q.qtype == TYPE_SOA && apex {
            match known.latest {
                None => Err(Plan::Latest),
                Some(latest) => if self.config.ns.len() == 0 {
                    Err(Plan::NoNameServer)
                } else {
                    Ok(one_rrset(self.get_soa(latest), self.domain.clone(), ZONE_TTL))
                },
            }
        } else if q.qtype == TYPE_AAAA {
            match (DnsServer::resolve_aaaa(&q.name), known.address) {
                (None, _) => Ok(no_rrset()),
                (Some(id), None) => Err(Plan::Lookup(id)),
                (Some(_), Some(None)) => Ok(no_rrset()),
                (Some(_), Some(Some(address))) => {
                    let ttl: u32 = (self.store.ttl().as_secs() % 0x1_0000_0000) as u32;
                    let record = Record {
                        name: q.name.clone(),
                        ttl,
                        data: RecordData::Aaaa(address),
                    };
                    Ok(one_rrset(record, q.name.clone(), ttl))
                },
            }
        } else {
            Ok(no_rrset())
        }
    }

    /// What answers a question in the zone for which there are no records, or what is needed to
    /// tell it.
    fn plan_negative(&self, request: &Request, q: &Question, apex: bool, known: &Known) -> (r: Plan)
        requires
            apex == is_apex(self@, q@.name),
            request@.question == Some(q@),
        ensures
            r@ == negative_plan(self@, request@, q@, known@),
    {
        let latest: Option<Timestamp> = match known.latest {
            None => {
                return Plan::Latest;
            },
            Some(latest) => latest,
        };
        if self.config.ns.len() == 0 {
            return Plan::NoNameServer;
        }
        let mut present: bool = apex;
        if !apex {
            if let Some(id) = DnsServer::resolve_aaaa(&q.name) {
                match known.address_again {
                    None => {
                        return Plan::Lookup(id);
                    },
                    Some(address) => {
                        present = address.is_some();
                    },
                }
            }
        }
        let mut head: Response = begin_answer(request);
        if !present {
            head.response_code = NX_DOMAIN;
        }
        let soa: Record = self.get_soa(latest);
        let mut authority: Vec<Rrset> = one_rrset(soa, self.domain.clone(), ZONE_TTL);
        let dnssec: bool = match request.edns {
            Some(edns) => edns.dnssec_ok,
            None => false,
        };
        if dnssec {
            let types: Vec<u16> = if apex {
                vec![TYPE_SOA, TYPE_NS, TYPE_DNSKEY, TYPE_RRSIG, TYPE_NSEC]
            } else if present {
                vec![TYPE_AAAA, TYPE_RRSIG, TYPE_NSEC]
            } else {
                vec![TYPE_RRSIG, TYPE_NSEC]
            };
            assert(types@ =~= existing_types(apex, present));
            let next_name: DomainName = q.name.make_black_lies_next_name();
            let nsec: Record = make_nsec(&q.name, &next_name, types.as_slice());
            let records: Vec<Record> = vec![nsec];
            assert(record_views(records@) =~= seq![nsec@]);
            let rrset = Rrset { records, owner: q.name.clone(), ttl: ZONE_TTL };
            let ghost before = rrset_views(authority@);
            authority.push(rrset);
            assert(rrset_views(authority@) =~= before.push(rrset@));
        }
        let draft = Draft { head, answers: no_rrset(), authority };
        proof {
            let expected = negative_plan(self@, request@, q@, known@)->Sign_0;
            assert(draft@.head =~= expected.head);
            assert(draft@.authority =~= expected.authority);
        }
        Plan::Sign(draft)
    }

    /// How a request goes on with what is known from the store.
    pub fn plan(&self, request: &Request, known: &Known) -> (r: Plan)
        ensures
            r@ == plan_of(self@, request@, known@),
    {
        let q: &Question = match &request.question {
            None => {
                return Plan::Reply(begin_response(request));
            },
            Some(q) => q,
        };
        if q.qclass != CLASS_IN {
            let mut response: Response = begin_answer(request);
            response.response_code = NOT_IMPLEMENTED;
            return Plan::Reply(response);
        }
        let apex: bool = self.is_main(&q.name);
        if !apex && !self.domain.zone_of(&q.name) {
            let mut response: Response = begin_answer(request);
            response.authoritative = false;
            response.response_code = REFUSED;
            return Plan::Reply(response);
        }
        match self.plan_answer(q, apex, known) {
            Err(plan) => plan,
            Ok(answers) => {
                assert(answers@.len() == rrset_views(answers@).len());
                if answers.len() == 0 {
                    self.plan_negative(request, q, apex, known)
                } else {
                    let head: Response = begin_answer(request);
                    Plan::Sign(Draft { head, answers, authority: no_rrset() })
                }
            },
        }
    }

    /// Signs record sets for a request that asks for it. A set that cannot be signed goes
    /// without.
    fn sign_all(&self, request: &Request, rrsets: &[Rrset]) -> (r: Vec<Option<Vec<u8>>>)
        ensures
            signatures_fit(self@, request@, rrset_views(rrsets@), signature_views(r@)),
            r@.len() == rrsets@.len(),
    {
        let ghost sets = rrset_views(rrsets@);
        let mut r: Vec<Option<Vec<u8>>> = Vec::new();
        let mut i: usize = 0;
        while i < rrsets.len()
            invariant
                i <= rrsets@.len(),
                r@.len() == i,
                sets == rrset_views(rrsets@),
                forall|k: int|
                    0 <= k < i ==> signature_fits(
                        self@,
                        request@,
                        sets[k],
                        octets_view(#[trigger] r@[k]),
                    ),
            decreases rrsets.len() - i,
        {
            let attempt: Option<Result<Vec<u8>, SignError>> = self.sign_one(request, &rrsets[i]);
            let signature: Option<Vec<u8>> = DnsServer::kept_signature(attempt);
            r.push(signature);
            i += 1;
        }
        proof {
            let views = signature_views(r@);
            assert forall|k: int| 0 <= k < sets.len() implies signature_fits(
                self@,
                request@,
                sets[k],
                #[trigger] views[k],
            ) by {
                assert(views[k] == octets_view(r@[k]));
            }
        }
        r
    }

    /// Tries to sign a record set where the request asks for it and the zone has a signer, and
    /// nowhere else.
    fn sign_one(&self, request: &Request, rrset: &Rrset) -> (r: Option<Result<Vec<u8>, SignError>>)
        ensures
            attempt_fits(self@, request@, rrset@, r),
    {
        let dnssec: bool = match request.edns {
            Some(edns) => edns.dnssec_ok,
            None => false,
        };
        if !dnssec {
            return None;
        }
        match &self.dnssec {
            Some(signer) => Some(
                signer.sign_rrset(rrset.records.as_slice(), &self.domain, rrset.ttl),
            ),
            None => None,
        }
    }

    /// The signature that came of trying to sign, if one did. A failure goes without.
    pub fn kept_signature(attempt: Option<Result<Vec<u8>, SignError>>) -> (r: Option<Vec<u8>>)
        ensures
            r == (match attempt {
                Some(Ok(rdata)) => Some(rdata),
                _ => None,
            }),
    {
        match attempt {
            Some(Ok(rdata)) => Some(rdata),
            _ => None,
        }
    }

    /// The response that a draft makes with its signatures.
    pub fn complete(
        draft: Draft,
        answer_signatures: Vec<Option<Vec<u8>>>,
        authority_signatures: Vec<Option<Vec<u8>>>,
    ) -> (r: Response)
        requires
            answer_signatures@.len() == draft@.answers.len(),
            authority_signatures@.len() == draft@.authority.len(),
        ensures
            r@ == signed(
                draft@,
                signature_views(answer_signatures@),
                signature_views(authority_signatures@),
            ),
    {
        let Draft { head, answers, authority } = draft;
        let mut r: Response = head;
        r.answers = make_section(answers, answer_signatures);
        r.name_servers = make_section(authority, authority_signatures);
        r
    }

    /// The response that is sent for one that takes `size` octets, as far as it can be written at
    /// all.
    pub fn fit(request: &Request, response: Response, size: Option<usize>) -> (r: Response)
        ensures
            r@ == fitted(
                request@,
                response@,
                match size {
                    Some(n) => Some(n as nat),
                    None => None,
                },
            ),
    {
        let limit: u16 = match request.edns {
            Some(edns) => edns.max_payload,
            None => DEFAULT_PAYLOAD,
        };
        match size {
            Some(n) => if n > limit as usize {
                let mut truncated: Response = response;
                truncated.truncated = true;
                truncated.answers = Vec::new();
                truncated.name_servers = Vec::new();
                assert(truncated@ =~= truncated_response(response@));
                truncated
            } else {
                response
            },
            None => response,
        }
    }

    /// Answers a request with what is known from the store, or tells what is needed from it.
    pub fn handle_query(&self, request: &Request, known: &Known) -> (r: Progress)
        ensures
            match plan_of(self@, request@, known@) {
                PlanView::Lookup(id) => r matches Progress::Lookup(text) && text@ == id,
                PlanView::Latest => r is Latest,
                PlanView::NoNameServer => r is NoNameServer,
                PlanView::Reply(response) => r matches Progress::Respond(x) && x@ == response,
                PlanView::Sign(draft) => r matches Progress::Respond(x) && answered(
                    self@,
                    request@,
                    draft,
                    x@,
                ),
            },
            r matches Progress::Respond(x) ==> x.can_be_written(),
    {
        match self.plan(request, known) {
            Plan::Lookup(id) => Progress::Lookup(id),
            Plan::Latest => Progress::Latest,
            Plan::NoNameServer => Progress::NoNameServer,
            Plan::Reply(response) => Progress::Respond(response),
            Plan::Sign(draft) => {
                let ghost planned = draft@;
                let a: Vec<Option<Vec<u8>>> = self.sign_all(request, draft.answers.as_slice());
                let b: Vec<Option<Vec<u8>>> = self.sign_all(request, draft.authority.as_slice());
                let ghost full = signed(planned, signature_views(a@), signature_views(b@));
                proof {
                    lemma_signed_writable(
                        self@,
                        request@,
                        known@,
                        planned,
                        signature_views(a@),
                        signature_views(b@),
                    );
                }
                let response: Response = DnsServer::complete(draft, a, b);
                assert(signed_by(self@, request@, planned, full));
                let size: Option<usize> = match response.to_bytes() {
                    Some(octets) => Some(octets.len()),
                    None => None,
                };
                Progress::Respond(DnsServer::fit(request, response, size))
            },
        }
    }
}

/// What is known once the store has told the address of the name that was asked for. It is asked
/// for first to answer a question for an address, and then to tell whether the name exists.
pub open spec fn learned_address(
    known: KnownView,
    request: RequestView,
    address: Option<Seq<u8>>,
) -> KnownView {
    if known.address is None && request.question is Some && request.question->0.qtype == TYPE_AAAA {
        KnownView { address: Some(address), ..known }
    } else {
        KnownView { address_again: Some(address), ..known }
    }
}

/// What is known once the store has told the latest expiration.
pub open spec fn learned_latest(known: KnownView, latest: Option<TimestampView>) -> KnownView {
    KnownView { latest: Some(latest), ..known }
}

/// Nothing is known from the store.
pub open spec fn nothing_known() -> KnownView {
    KnownView { address: None, latest: None, address_again: None }
}

/// The address that came of a lookup. One that failed found none.
pub open spec fn found_address(outcome: OutcomeView) -> Option<Seq<u8>> {
    match outcome {
        OutcomeView::Entry(Some(entry)) => Some(entry.value),
        _ => None,
    }
}

/// The latest expiration that was found. A search that failed found none.
pub open spec fn found_latest(outcome: OutcomeView) -> Option<TimestampView> {
    match outcome {
        OutcomeView::Latest(latest) => latest,
        _ => None,
    }
}

impl Known {
    /// Nothing is known yet.
    pub fn new() -> (r: Known)
        ensures
            r@ == nothing_known(),
    {
        Known { address: None, latest: None, address_again: None }
    }

    /// Takes in what came of the lookup of the name that was asked for.
    pub fn learn_address(self, request: &Request, outcome: &Outcome) -> (r: Known)
        ensures
            r@ == learned_address(self@, request@, found_address(outcome@)),
    {
        let address: Option<[u8; 16]> = match outcome {
            Outcome::Entry(Some(entry)) => Some(entry.value),
            _ => None,
        };
        let for_address: bool = match &request.question {
            Some(q) => q.qtype == TYPE_AAAA,
            None => false,
        };
        if self.address.is_none() && for_address {
            Known {
                address: Some(address),
                latest: self.latest,
                address_again: self.address_again,
            }
        } else {
            Known { address: self.address, latest: self.latest, address_again: Some(address) }
        }
    }

    /// Takes in what came of the search for the latest expiration.
    pub fn learn_latest(self, outcome: &Outcome) -> (r: Known)
        ensures
            r@ == learned_latest(self@, found_latest(outcome@)),
    {
        let latest: Option<Timestamp> = match outcome {
            Outcome::Latest(latest) => *latest,
            _ => None,
        };
        Known {
            address: self.address,
            latest: Some(latest),
            address_again: self.address_again,
        }
    }
}

/// How far a request has come.
pub enum Progress {
    /// The address of an id is needed.
    Lookup(String),
    /// The latest expiration of all names is needed.
    Latest,
    /// The response needs a name server, and none is configured.
    NoNameServer,
    /// The response.
    Respond(Response),
}

} // verus!
