//! What the responses of the DNS server hold, field by field.
use vstd::prelude::*;
use vstd::utf8::valid_utf8;

use crate::bytes::lower_octet;
use crate::bytes::lower_octets;
use crate::clock::duration_secs;
use crate::clock::TimestampView;
use crate::config::DnsConfig;
use crate::database::completes;
use crate::database::consistent;
use crate::database::law_added_name_resolves;
use crate::database::live;
use crate::database::Db;
use crate::dns::answered;
use crate::dns::existing_types;
use crate::dns::fitted;
use crate::dns::found_address;
use crate::dns::is_set_up;
use crate::dns::found_latest;
use crate::dns::learned_address;
use crate::dns::learned_latest;
use crate::dns::nothing_known;
use crate::dns::ns_records;
use crate::dns::plan_of;
use crate::dns::signature_fits;
use crate::dns::signatures_fit;
use crate::dns::signed;
use crate::dns::signed_by;
use crate::dns::size_of_response;
use crate::dns::DraftView;
use crate::dns::KnownView;
use crate::dns::PlanView;
use crate::dns::ServerView;
use crate::dns_laws::law_known_name_is_answered;
use crate::dns_laws::may_respond;
use crate::dns_laws::small;
use crate::dnssec::could_not_sign;
use crate::dnssec::is_some_rrsig;
use crate::message::message_encoding;
use crate::message::MessageType;
use crate::message::QuestionView;
use crate::message::RequestView;
use crate::message::ResponseView;
use crate::name::black_lies_next;
use crate::name::law_wire_form_is_short;
use crate::name::lower_labels;
use crate::name::name_of;
use crate::name::name_wire;
use crate::name::shown;
use crate::name::valid_labels;
use crate::name::zone_of;
use crate::name::NameView;
use crate::record::RecordDataView;
use crate::record::RecordView;
use crate::store::key_of;
use crate::store::start_add;
use crate::store::start_resolve;
use crate::store::Store;
use crate::task::EntryView;
use crate::task::EventView;
use crate::task::OutcomeView;
use crate::task::ResolvedView;
use crate::task::StoreFault;
use crate::text::lowered;
use crate::zone::full_bitmap;
use crate::zone::is_listed;
use crate::zone::law_bitmap_lists_exactly_the_types;
use crate::zone::section;
use crate::zone::with_signature;
use crate::zone::without_zero_tail;
use crate::zone::RrsetView;

verus! {

/// The octets are the same, or an ASCII letter and the same letter in the other case.
pub open spec fn same_letter(a: u8, b: u8) -> bool {
    ||| a == b
    ||| 65 <= a <= 90 && b == a + 32
    ||| 65 <= b <= 90 && a == b + 32
}

/// The labels are the same, whatever the case of their letters.
pub open spec fn same_label(a: Seq<u8>, b: Seq<u8>) -> bool {
    a.len() == b.len() && forall|k: int| 0 <= k < a.len() ==> same_letter(#[trigger] a[k], b[k])
}

/// Counted from the end, each label of the zone is that of the name.
pub open spec fn ends_in(name: Seq<Seq<u8>>, zone: Seq<Seq<u8>>) -> bool {
    zone.len() <= name.len() && forall|i: int|
        0 <= i < zone.len() ==> same_label(name[name.len() - zone.len() + i], #[trigger] zone[i])
}

/// The name, in small letters, is shown as the zone was configured, in small letters and with a
/// dot behind it.
pub open spec fn shown_as_zone(server: ServerView, name: NameView) -> bool {
    shown(NameView { labels: lower_labels(name.labels), fqdn: name.fqdn }) == lowered(
        server.domain_text + "."@,
    )
}

/// The request asks for DNSSEC records.
pub open spec fn asks_dnssec(request: RequestView) -> bool {
    request.edns matches Some(edns) && edns.dnssec_ok
}

/// The first label of the name can be an id: there is another label, and it is text.
pub open spec fn has_id(name: NameView) -> bool {
    name.labels.len() >= 2 && valid_utf8(lower_octets(name.labels[0]))
}

/// The records hold a set, and behind it a signature that the signer of the zone made of this
/// very set. The signature is there exactly where DNSSEC is asked for and the zone has a signer,
/// unless the attempt to sign the set failed.
pub open spec fn is_signed_set(
    server: ServerView,
    request: RequestView,
    records: Seq<RecordView>,
    set: Seq<RecordView>,
    owner: NameView,
    ttl: u32,
) -> bool {
    let n = set.len() as int;
    &&& records.len() >= n
    &&& records.take(n) == set
    &&& if records.len() == n {
        asks_dnssec(request) && server.signer is Some ==> could_not_sign(
            server.signer->0,
            set,
            server.domain,
            ttl,
        )
    } else {
        &&& asks_dnssec(request)
        &&& server.signer is Some
        &&& records.len() == n + 1
        &&& records[n].name == owner
        &&& records[n].ttl == ttl
        &&& records[n].data matches RecordDataView::Unknown { code, data } && code == 46
            && is_some_rrsig(data, server.signer->0, set, server.domain, ttl)
    }
}

/// The record is the start of authority of the zone.
pub open spec fn is_soa(
    server: ServerView,
    latest: Option<TimestampView>,
    record: RecordView,
) -> bool {
    &&& record.name == server.domain
    &&& record.ttl == 3600
    &&& record.data matches RecordDataView::Soa(soa) && {
        &&& soa.mname == (match name_of(server.ns[0]) {
            Some(name) => name,
            None => server.domain,
        })
        &&& soa.rname == (match name_of(server.mname) {
            Some(name) => name,
            None => server.domain,
        })
        &&& soa.serial == (match latest {
            Some(t) => t.secs % 0x1_0000_0000,
            None => 1,
        })
        &&& soa.refresh == 3600
        &&& soa.retry == 600
        &&& soa.expire == 604800
        &&& soa.minimum == 3600
    }
}

/// The record proves that the name has the listed types and no others, up to the name with a zero
/// label in front, or, where that is too long, the name itself.
pub open spec fn is_nsec(name: NameView, listed: spec_fn(int) -> bool, record: RecordView) -> bool {
    let own = name_wire(name.labels);
    let next = if own.len() + 2 <= 255 {
        seq![1u8, 0u8] + own
    } else {
        own
    };
    let n = next.len() as int;
    &&& record.name == name
    &&& record.ttl == 3600
    &&& record.data matches RecordDataView::Unknown { code, data } && {
        &&& code == 47
        &&& data.len() > n + 2
        &&& data.take(n) == next
        &&& data[n] == 0
        &&& data[n + 1] == data.len() - n - 2
        &&& data.len() - n - 2 <= 32
        &&& forall|number: int|
            0 <= number < 256 ==> (#[trigger] is_listed(data.skip(n + 2), number) <==> listed(
                number,
            ))
    }
}

proof fn lemma_same_letter(a: u8, b: u8)
    ensures
        same_letter(a, b) <==> lower_octet(a) == lower_octet(b),
{
}

proof fn lemma_same_label(a: Seq<u8>, b: Seq<u8>)
    ensures
        same_label(a, b) <==> lower_octets(a) == lower_octets(b),
{
    let la = lower_octets(a);
    let lb = lower_octets(b);
    assert(la.len() == a.len() && lb.len() == b.len());
    if same_label(a, b) {
        assert forall|k: int| 0 <= k < la.len() implies la[k] == lb[k] by {
            lemma_same_letter(a[k], b[k]);
        }
        assert(la =~= lb);
    }
    if la == lb {
        assert forall|k: int| 0 <= k < a.len() implies same_letter(#[trigger] a[k], b[k]) by {
            assert(la[k] == lb[k]);
            lemma_same_letter(a[k], b[k]);
        }
    }
}

/// Law: a zone holds exactly the names that end in its labels, one by one from the end, whatever
/// the case of the letters.
pub proof fn law_zone_holds_the_names_that_end_in_it(zone: Seq<Seq<u8>>, name: Seq<Seq<u8>>)
    ensures
        zone_of(zone, name) <==> ends_in(name, zone),
{
    if zone.len() <= name.len() {
        let n = name.len() - zone.len();
        let tail = name.skip(n);
        let lt = lower_labels(tail);
        let lz = lower_labels(zone);
        assert(lt.len() == zone.len() && lz.len() == zone.len());
        if zone_of(zone, name) {
            assert forall|i: int| 0 <= i < zone.len() implies same_label(
                name[n + i],
                #[trigger] zone[i],
            ) by {
                assert(lt[i] == lz[i]);
                assert(tail[i] == name[n + i]);
                lemma_same_label(name[n + i], zone[i]);
            }
        }
        if ends_in(name, zone) {
            assert forall|i: int| 0 <= i < lt.len() implies lt[i] == lz[i] by {
                assert(tail[i] == name[n + i]);
                assert(same_label(name[n + i], zone[i]));
                lemma_same_label(name[n + i], zone[i]);
            }
            assert(lt =~= lz);
        }
    }
}

/// Law: a question of class IN for a name that does not end in the labels of the zone, and is not
/// shown as the zone, is answered with the code for a refusal, without authority and without
/// records, whatever is known from the store, which is not asked.
pub proof fn law_foreign_question_is_refused(
    server: ServerView,
    request: RequestView,
    q: QuestionView,
    known: KnownView,
)
    requires
        request.question == Some(q),
        q.qclass == 1,
        !ends_in(q.name.labels, server.domain.labels),
        !shown_as_zone(server, q.name),
    ensures
        plan_of(server, request, known) matches PlanView::Reply(response) && {
            &&& response.response_code == 5
            &&& !response.authoritative
            &&& !response.truncated
            &&& response.answers.len() == 0
            &&& response.name_servers.len() == 0
            &&& response.id == request.id
            &&& response.question == Some(q)
        },
{
    law_zone_holds_the_names_that_end_in_it(server.domain.labels, q.name.labels);
}

/// Law: a question of class IN for a name that ends in the labels of the zone, or is shown as the
/// zone, is not refused: the server asks the store or answers with authority.
pub proof fn law_question_in_the_zone_is_served(
    server: ServerView,
    request: RequestView,
    q: QuestionView,
    known: KnownView,
)
    requires
        request.question == Some(q),
        q.qclass == 1,
        ends_in(q.name.labels, server.domain.labels) || shown_as_zone(server, q.name),
    ensures
        !(plan_of(server, request, known) is Reply),
        plan_of(server, request, known) matches PlanView::Sign(draft) ==> draft.head.authoritative
            && draft.head.response_code != 5,
{
    law_zone_holds_the_names_that_end_in_it(server.domain.labels, q.name.labels);
}

/// Law: a question of another class is answered with the code for what is not implemented, and
/// a request without a question with an empty response.
pub proof fn law_other_requests_are_answered_at_once(
    server: ServerView,
    request: RequestView,
    known: KnownView,
)
    requires
        request.question matches Some(q) ==> q.qclass != 1,
    ensures
        plan_of(server, request, known) matches PlanView::Reply(response) && {
            &&& response.response_code == if request.question is Some {
                4u8
            } else {
                0u8
            }
            &&& response.authoritative
            &&& response.answers.len() == 0
            &&& response.name_servers.len() == 0
            &&& response.question == request.question
        },
{
}

/// Law: every response is a response to a standard query without recursion, with the number, the
/// question and the wish for recursion of its request. It offers to take 4096 octets and DNSSEC
/// exactly where the request asks for DNSSEC.
pub proof fn law_head_of_every_response(
    server: ServerView,
    request: RequestView,
    known: KnownView,
    response: ResponseView,
)
    requires
        may_respond(server, request, known, response),
    ensures
        response.id == request.id,
        response.message_type == MessageType::Response,
        response.op_code == 0,
        response.recursion_desired == request.recursion_desired,
        !response.recursion_available,
        response.question == request.question,
        response.edns is Some <==> asks_dnssec(request),
        response.edns matches Some(edns) ==> edns.dnssec_ok && edns.max_payload == 4096,
        response.response_code == 0 || response.response_code == 3 || response.response_code == 4
            || response.response_code == 5,
        response.authoritative == (response.response_code != 5),
{
}

/// Law: a response is cut down exactly where it could be written and takes more octets than the
/// client takes: as many as the request tells, or 512. It keeps everything but its records.
pub proof fn law_response_is_cut_down_where_it_is_too_large(
    server: ServerView,
    request: RequestView,
    draft: DraftView,
    response: ResponseView,
) -> (full: ResponseView)
    requires
        answered(server, request, draft, response),
        !draft.head.truncated,
    ensures
        signed_by(server, request, draft, full),
        !full.truncated,
        ({
            let limit = match request.edns {
                Some(edns) => edns.max_payload,
                None => 512u16,
            };
            if message_encoding(full) matches Some(octets) && octets.len() > limit {
                response == (ResponseView {
                    truncated: true,
                    answers: Seq::empty(),
                    name_servers: Seq::empty(),
                    ..full
                })
            } else {
                response == full
            }
        }),
{
    let full = choose|full: ResponseView| #[trigger]
        signed_by(server, request, draft, full) && response == fitted(
            request,
            full,
            size_of_response(full),
        );
    full
}

/// The sections of a response that was not cut down: those of the draft with signatures that fit.
proof fn lemma_sections(
    server: ServerView,
    request: RequestView,
    draft: DraftView,
    response: ResponseView,
) -> (r: (Seq<Option<Seq<u8>>>, Seq<Option<Seq<u8>>>))
    requires
        answered(server, request, draft, response),
        !response.truncated,
    ensures
        response == signed(draft, r.0, r.1),
        signatures_fit(server, request, draft.answers, r.0),
        signatures_fit(server, request, draft.authority, r.1),
{
    let full = choose|full: ResponseView| #[trigger]
        signed_by(server, request, draft, full) && response == fitted(
            request,
            full,
            size_of_response(full),
        );
    let (a, b) = choose|a: Seq<Option<Seq<u8>>>, b: Seq<Option<Seq<u8>>>|
        full == #[trigger] signed(draft, a, b) && signatures_fit(server, request, draft.answers, a)
            && signatures_fit(server, request, draft.authority, b);
    (a, b)
}

/// A set with its signature that fits.
proof fn lemma_signed_set(
    server: ServerView,
    request: RequestView,
    rrset: RrsetView,
    signature: Option<Seq<u8>>,
)
    requires
        signature_fits(server, request, rrset, signature),
    ensures
        is_signed_set(
            server,
            request,
            with_signature(rrset, signature),
            rrset.records,
            rrset.owner,
            rrset.ttl,
        ),
{
    assert(with_signature(rrset, signature).take(rrset.records.len() as int) =~= rrset.records);
}

proof fn lemma_section_of_none(signatures: Seq<Option<Seq<u8>>>)
    ensures
        section(Seq::<RrsetView>::empty(), signatures) == Seq::<RecordView>::empty(),
{
}

proof fn lemma_section_of_one(rrsets: Seq<RrsetView>, signatures: Seq<Option<Seq<u8>>>)
    requires
        rrsets.len() == 1,
        signatures.len() == 1,
    ensures
        section(rrsets, signatures) == with_signature(rrsets[0], signatures[0]),
{
    assert(rrsets.drop_last() =~= Seq::<RrsetView>::empty());
    lemma_section_of_none(signatures.drop_last());
    assert(section(rrsets, signatures) =~= with_signature(rrsets[0], signatures[0]));
}

proof fn lemma_section_of_two(rrsets: Seq<RrsetView>, signatures: Seq<Option<Seq<u8>>>)
    requires
        rrsets.len() == 2,
        signatures.len() == 2,
    ensures
        section(rrsets, signatures) == with_signature(rrsets[0], signatures[0]) + with_signature(
            rrsets[1],
            signatures[1],
        ),
{
    lemma_section_of_one(rrsets.drop_last(), signatures.drop_last());
}

/// The response to a question with one record set as its answer.
proof fn lemma_one_set(
    server: ServerView,
    request: RequestView,
    draft: DraftView,
    response: ResponseView,
)
    requires
        answered(server, request, draft, response),
        !response.truncated,
        draft.answers.len() == 1,
        draft.authority.len() == 0,
    ensures
        is_signed_set(
            server,
            request,
            response.answers,
            draft.answers[0].records,
            draft.answers[0].owner,
            draft.answers[0].ttl,
        ),
        response.name_servers.len() == 0,
        response.response_code == draft.head.response_code,
        response.authoritative == draft.head.authoritative,
{
    let (a, b) = lemma_sections(server, request, draft, response);
    lemma_section_of_one(draft.answers, a);
    assert(draft.authority =~= Seq::<RrsetView>::empty());
    lemma_section_of_none(b);
    assert(signature_fits(server, request, draft.answers[0], a[0]));
    lemma_signed_set(server, request, draft.answers[0], a[0]);
}

/// Law: the response to a question for the address of a name in the zone whose address is known
/// holds one address record: of the name that was asked for, with the time to live of the server,
/// and with exactly the octets of the address. Behind it stands its signature, where DNSSEC is
/// asked for.
pub proof fn law_address_answer_holds_the_address(
    server: ServerView,
    request: RequestView,
    q: QuestionView,
    known: KnownView,
    address: Seq<u8>,
    response: ResponseView,
)
    requires
        request.question == Some(q),
        q.qclass == 1,
        q.qtype == 28,
        ends_in(q.name.labels, server.domain.labels) || shown_as_zone(server, q.name),
        has_id(q.name),
        known.address == Some(Some(address)),
        may_respond(server, request, known, response),
        !response.truncated,
    ensures
        response.response_code == 0,
        response.authoritative,
        response.answers.len() >= 1,
        response.answers[0].data == RecordDataView::Aaaa(address),
        response.answers[0].name == q.name,
        response.answers[0].ttl == server.ttl,
        is_signed_set(
            server,
            request,
            response.answers,
            seq![response.answers[0]],
            q.name,
            server.ttl,
        ),
        response.name_servers.len() == 0,
{
    law_zone_holds_the_names_that_end_in_it(server.domain.labels, q.name.labels);
    let draft = plan_of(server, request, known)->Sign_0;
    lemma_one_set(server, request, draft, response);
    let set = draft.answers[0].records;
    assert(response.answers.take(1)[0] == response.answers[0]);
    assert(set =~= seq![response.answers[0]]);
}

/// The names that can be read, in their order.
pub open spec fn readable_names(texts: Seq<Seq<char>>) -> Seq<NameView> {
    texts.filter(|text: Seq<char>| name_of(text) is Some).map_values(
        |text: Seq<char>| name_of(text)->0,
    )
}

proof fn lemma_ns_records(server: ServerView, ns: Seq<Seq<char>>)
    ensures
        ns_records(server, ns).len() == readable_names(ns).len(),
        forall|i: int|
            0 <= i < readable_names(ns).len() ==> {
                let record = #[trigger] ns_records(server, ns)[i];
                &&& record.name == server.domain
                &&& record.ttl == 3600
                &&& record.data == RecordDataView::Ns(readable_names(ns)[i])
            },
    decreases ns.len(),
{
    reveal(Seq::filter);
    let keep = |text: Seq<char>| name_of(text) is Some;
    let read = |text: Seq<char>| name_of(text)->0;
    if ns.len() > 0 {
        let front = ns.drop_last();
        lemma_ns_records(server, front);
        let names = readable_names(ns);
        let before = readable_names(front);
        if keep(ns.last()) {
            assert(ns.filter(keep) == front.filter(keep).push(ns.last()));
            assert(names =~= before.push(read(ns.last())));
        } else {
            assert(ns.filter(keep) == front.filter(keep));
            assert(names =~= before);
        }
        assert forall|i: int| 0 <= i < names.len() implies {
            let record = #[trigger] ns_records(server, ns)[i];
            &&& record.name == server.domain
            &&& record.ttl == 3600
            &&& record.data == RecordDataView::Ns(names[i])
        } by {
            if i < before.len() {
                assert(ns_records(server, ns)[i] == ns_records(server, front)[i]);
            }
        }
    }
}

/// Law: the response to a question for the name servers of the zone holds one record for each of
/// the configured names that can be read, in their order. Each is owned by the zone, lives for an
/// hour, and holds the name. Behind them stands their signature, where DNSSEC is asked for.
pub proof fn law_name_server_answer_holds_the_configured_names(
    server: ServerView,
    request: RequestView,
    q: QuestionView,
    known: KnownView,
    response: ResponseView,
)
    requires
        request.question == Some(q),
        q.qclass == 1,
        q.qtype == 2,
        shown_as_zone(server, q.name),
        readable_names(server.ns).len() > 0,
        may_respond(server, request, known, response),
        !response.truncated,
    ensures
        response.response_code == 0,
        response.authoritative,
        response.answers.len() >= readable_names(server.ns).len(),
        forall|i: int|
            0 <= i < readable_names(server.ns).len() ==> {
                let record = #[trigger] response.answers[i];
                &&& record.name == server.domain
                &&& record.ttl == 3600
                &&& record.data == RecordDataView::Ns(readable_names(server.ns)[i])
            },
        is_signed_set(
            server,
            request,
            response.answers,
            response.answers.take(readable_names(server.ns).len() as int),
            server.domain,
            3600,
        ),
        response.name_servers.len() == 0,
{
    lemma_ns_records(server, server.ns);
    let draft = plan_of(server, request, known)->Sign_0;
    lemma_one_set(server, request, draft, response);
    let set = draft.answers[0].records;
    let n = readable_names(server.ns).len() as int;
    assert(set == ns_records(server, server.ns));
    assert forall|i: int| 0 <= i < n implies {
        let record = #[trigger] response.answers[i];
        &&& record.name == server.domain
        &&& record.ttl == 3600
        &&& record.data == RecordDataView::Ns(readable_names(server.ns)[i])
    } by {
        assert(response.answers.take(n)[i] == set[i]);
    }
}

/// Law: the response to a question for the start of authority of the zone holds it, owned by the
/// zone, and its signature, where DNSSEC is asked for.
pub proof fn law_authority_answer_holds_the_authority(
    server: ServerView,
    request: RequestView,
    q: QuestionView,
    known: KnownView,
    latest: Option<TimestampView>,
    response: ResponseView,
)
    requires
        request.question == Some(q),
        q.qclass == 1,
        q.qtype == 6,
        shown_as_zone(server, q.name),
        server.ns.len() > 0,
        known.latest == Some(latest),
        may_respond(server, request, known, response),
        !response.truncated,
    ensures
        response.response_code == 0,
        response.authoritative,
        response.answers.len() >= 1,
        is_soa(server, latest, response.answers[0]),
        is_signed_set(
            server,
            request,
            response.answers,
            seq![response.answers[0]],
            server.domain,
            3600,
        ),
        response.name_servers.len() == 0,
{
    let draft = plan_of(server, request, known)->Sign_0;
    lemma_one_set(server, request, draft, response);
    assert(response.answers.take(1)[0] == response.answers[0]);
    assert(draft.answers[0].records =~= seq![response.answers[0]]);
}

/// Law: the response to a question for the key of the zone holds it, owned by the zone: the flags
/// of a zone key that delegations point to, the protocol, the algorithm and the octets of the key.
/// Behind it stands its signature, where DNSSEC is asked for.
pub proof fn law_key_answer_holds_the_key(
    server: ServerView,
    request: RequestView,
    q: QuestionView,
    known: KnownView,
    response: ResponseView,
)
    requires
        request.question == Some(q),
        q.qclass == 1,
        q.qtype == 48,
        shown_as_zone(server, q.name),
        server.signer is Some,
        may_respond(server, request, known, response),
        !response.truncated,
    ensures
        response.response_code == 0,
        response.authoritative,
        response.answers.len() >= 1,
        response.answers[0].name == server.domain,
        response.answers[0].ttl == 3600,
        response.answers[0].data == (RecordDataView::Unknown {
            code: 48,
            data: seq![1u8, 1u8, 3u8, 13u8] + server.signer->0.public_key,
        }),
        is_signed_set(
            server,
            request,
            response.answers,
            seq![response.answers[0]],
            server.domain,
            3600,
        ),
        response.name_servers.len() == 0,
{
    let draft = plan_of(server, request, known)->Sign_0;
    lemma_one_set(server, request, draft, response);
    assert(response.answers.take(1)[0] == response.answers[0]);
    assert(draft.answers[0].records =~= seq![response.answers[0]]);
    let key = server.signer->0.public_key;
    assert(crate::dnssec::dnskey_wire(key) =~= seq![1u8, 1u8, 3u8, 13u8] + key);
}

/// The types of a name that has no answer: those of the zone itself, of a name that the store
/// knows, or of one that it does not know.
pub open spec fn has_type(apex: bool, present: bool, number: int) -> bool {
    if apex {
        number == 6 || number == 2 || number == 48 || number == 46 || number == 47
    } else if present {
        number == 28 || number == 46 || number == 47
    } else {
        number == 46 || number == 47
    }
}

proof fn lemma_nsec(name: NameView, apex: bool, present: bool)
    requires
        valid_labels(name.labels),
        apex ==> present,
    ensures
        is_nsec(
            name,
            |number: int| has_type(apex, present, number),
            crate::zone::nsec_record(name, black_lies_next(name), existing_types(apex, present)),
        ),
{
    let types = existing_types(apex, present);
    let record = crate::zone::nsec_record(name, black_lies_next(name), types);
    let data = record.data->data;
    let own = name_wire(name.labels);
    law_wire_form_is_short(name.labels);
    let next = name_wire(black_lies_next(name).labels);
    let longer = seq![seq![0u8]] + name.labels;
    assert(longer.drop_first() =~= name.labels);
    assert(longer[0] == seq![0u8]);
    assert(name_wire(longer) =~= seq![1u8, 0u8] + own);
    let bitmap = without_zero_tail(full_bitmap(types));
    lemma_bitmap_len(full_bitmap(types));
    let n = next.len() as int;
    assert(data =~= next + (seq![0u8, bitmap.len() as u8] + bitmap));
    assert(data.take(n) =~= next);
    assert(data.skip(n + 2) =~= bitmap);
    assert forall|number: int| 0 <= number < 256 implies (#[trigger] is_listed(
        data.skip(n + 2),
        number,
    ) <==> has_type(apex, present, number)) by {
        law_bitmap_lists_exactly_the_types(types, number as u16);
        if apex {
            assert(types[0] == 6 && types[1] == 2 && types[2] == 48 && types[3] == 46 && types[4]
                == 47);
        } else if present {
            assert(types[0] == 28 && types[1] == 46 && types[2] == 47);
        } else {
            assert(types[0] == 46 && types[1] == 47);
        }
        assert(types.contains(number as u16) <==> has_type(apex, present, number));
    }
}

proof fn lemma_bitmap_len(octets: Seq<u8>)
    requires
        octets.len() > 0,
    ensures
        1 <= without_zero_tail(octets).len() <= octets.len(),
    decreases octets.len(),
{
    if octets.len() > 1 && octets.last() == 0 {
        lemma_bitmap_len(octets.drop_last());
    }
}

/// There is no answer to a question in the zone: it is for the address of a name without a known
/// one, or for a type that the name does not have.
pub open spec fn has_no_answer(server: ServerView, q: QuestionView, known: KnownView) -> bool {
    let apex = shown_as_zone(server, q.name);
    &&& q.qtype == 28 ==> !has_id(q.name) || known.address == Some(None::<Seq<u8>>)
    &&& q.qtype == 2 && apex ==> readable_names(server.ns).len() == 0
    &&& !(q.qtype == 6 && apex)
    &&& q.qtype == 48 && apex ==> server.signer is None
}

/// Law: the response to a question in the zone that has no answer holds no answers, and in its
/// authority section the start of authority of the zone. Its code says that the name does not
/// exist exactly where it is neither the zone nor a name that the store knows. Where DNSSEC is
/// asked for, a record follows that proves which types the name has. Each is signed.
pub proof fn law_question_without_answer_is_denied(
    server: ServerView,
    request: RequestView,
    q: QuestionView,
    known: KnownView,
    latest: Option<TimestampView>,
    response: ResponseView,
) -> (cut: int)
    requires
        request.question == Some(q),
        q.qclass == 1,
        valid_labels(q.name.labels),
        ends_in(q.name.labels, server.domain.labels) || shown_as_zone(server, q.name),
        has_no_answer(server, q, known),
        server.ns.len() > 0,
        known.latest == Some(latest),
        may_respond(server, request, known, response),
        !response.truncated,
    ensures
        ({
            let apex = shown_as_zone(server, q.name);
            let present = apex || (has_id(q.name) && known.address_again->0 is Some);
            &&& response.response_code == if present {
                0u8
            } else {
                3u8
            }
            &&& response.authoritative
            &&& response.answers.len() == 0
            &&& 1 <= cut <= response.name_servers.len()
            &&& is_soa(server, latest, response.name_servers[0])
            &&& is_signed_set(
                server,
                request,
                response.name_servers.take(cut),
                seq![response.name_servers[0]],
                server.domain,
                3600,
            )
            &&& !asks_dnssec(request) ==> cut == 1 && response.name_servers.len() == 1
            &&& asks_dnssec(request) ==> {
                &&& response.name_servers.len() > cut
                &&& is_nsec(
                    q.name,
                    |number: int| has_type(apex, present, number),
                    response.name_servers[cut],
                )
                &&& is_signed_set(
                    server,
                    request,
                    response.name_servers.skip(cut),
                    seq![response.name_servers[cut]],
                    q.name,
                    3600,
                )
            }
        }),
{
    law_zone_holds_the_names_that_end_in_it(server.domain.labels, q.name.labels);
    lemma_ns_records(server, server.ns);
    let apex = shown_as_zone(server, q.name);
    let present = apex || (has_id(q.name) && known.address_again->0 is Some);
    let draft = plan_of(server, request, known)->Sign_0;
    let (a, b) = lemma_sections(server, request, draft, response);
    assert(draft.answers =~= Seq::<RrsetView>::empty());
    lemma_section_of_none(a);
    let first = with_signature(draft.authority[0], b[0]);
    assert(signature_fits(server, request, draft.authority[0], b[0]));
    lemma_signed_set(server, request, draft.authority[0], b[0]);
    let cut = first.len() as int;
    assert(first[0] == draft.authority[0].records[0]);
    if asks_dnssec(request) {
        lemma_section_of_two(draft.authority, b);
        let second = with_signature(draft.authority[1], b[1]);
        assert(signature_fits(server, request, draft.authority[1], b[1]));
        lemma_signed_set(server, request, draft.authority[1], b[1]);
        assert(response.name_servers == first + second);
        assert(response.name_servers.take(cut) =~= first);
        assert(response.name_servers.skip(cut) =~= second);
        assert(second[0] == draft.authority[1].records[0]);
        assert(response.name_servers[cut] == second[0]);
        assert(draft.authority[1].records =~= seq![response.name_servers[cut]]);
        lemma_nsec(q.name, apex, present);
    } else {
        lemma_section_of_one(draft.authority, b);
        assert(response.name_servers.take(cut) =~= first);
    }
    assert(draft.authority[0].records =~= seq![response.name_servers[0]]);
    cut
}

/// Law: a server is set up as it is configured: with the zone and the time to live of its store,
/// the name servers one by one, and the mailbox.
pub proof fn law_server_is_set_up_as_configured(
    server: ServerView,
    config: DnsConfig,
    store: Store,
)
    requires
        is_set_up(server, config, store),
    ensures
        server.domain_text == store@.domain,
        name_of(store@.domain) == Some(server.domain),
        server.ttl == duration_secs(store@.ttl) % 0x1_0000_0000,
        server.ns.len() == config.ns@.len(),
        forall|i: int| 0 <= i < server.ns.len() ==> #[trigger] server.ns[i] == config.ns@[i]@,
        server.mname == config.mname@,
{
}

/// Law: a client that was given a name gets its own address when it asks for the name, until the
/// name expires. The one answer is owned by the name, lives as long as names do, and holds exactly
/// the octets of the address that was registered. This is for a client without an extension, and
/// for ids in small letters.
pub proof fn law_registered_address_is_served(
    config: DnsConfig,
    store: Store,
    server: ServerView,
    db: Db,
    ip: Seq<u8>,
    events: Seq<EventView>,
    db2: Db,
    r: ResolvedView,
    request: RequestView,
    name: NameView,
    later: Seq<EventView>,
    db3: Db,
    outcome: OutcomeView,
    response: ResponseView,
)
    requires
        is_set_up(server, config, store),
        consistent(db),
        completes(store@, db, start_add(ip), events, db2, OutcomeView::Added(r)),
        small(r.id) == r.id,
        server.domain.labels.len() > 0,
        name.labels == seq![key_of(r.id)] + server.domain.labels,
        valid_labels(name.labels),
        request.question == Some((QuestionView { name, qtype: 28, qclass: 1 })),
        request.edns is None,
        live(r.entry, later),
        completes(store@, db2, start_resolve(r.id), later, db3, outcome),
        may_respond(
            server,
            request,
            learned_address(nothing_known(), request, found_address(outcome)),
            response,
        ),
    ensures
        plan_of(server, request, nothing_known()) == PlanView::Lookup(r.id),
        r.entry.value == ip,
        response.response_code == 0,
        response.authoritative,
        !response.truncated,
        response.answers.len() == 1,
        response.answers[0].data == RecordDataView::Aaaa(ip),
        response.answers[0].name == name,
        response.answers[0].ttl == duration_secs(store@.ttl) % 0x1_0000_0000,
        response.name_servers.len() == 0,
{
    law_added_name_resolves(store@, db, ip, events, db2, r, later, db3, outcome);
    let known = learned_address(nothing_known(), request, found_address(outcome));
    crate::dns_laws::law_known_address_is_sent(server, request, name, r.id, ip, known, response);
    law_known_name_is_answered(server, request, name, r.id, nothing_known());
}

/// Law: to answer a question for the address of a name in the zone, or to tell whether a name
/// exists, the server looks up the first label in small letters, and nothing else.
pub proof fn law_lookup_is_by_the_first_label(
    server: ServerView,
    request: RequestView,
    q: QuestionView,
    known: KnownView,
)
    requires
        request.question == Some(q),
    ensures
        plan_of(server, request, known) matches PlanView::Lookup(id) ==> {
            &&& has_id(q.name)
            &&& id == lowered(vstd::utf8::decode_utf8(lower_octets(q.name.labels[0])))
        },
        q.qclass == 1 && q.qtype == 28 && (ends_in(q.name.labels, server.domain.labels)
            || shown_as_zone(server, q.name)) && has_id(q.name) && known.address is None
            ==> plan_of(server, request, known) is Lookup,
{
    law_zone_holds_the_names_that_end_in_it(server.domain.labels, q.name.labels);
}

/// Law: what the store tells is kept as it is, under what it was asked for: an address for a
/// question for an address first, and then, or for any other question, for whether the name
/// exists. A lookup or a search that failed tells nothing.
pub proof fn law_what_the_store_tells_is_kept(
    known: KnownView,
    request: RequestView,
    q: QuestionView,
    address: Option<Seq<u8>>,
    latest: Option<TimestampView>,
    entry: EntryView,
    fault: StoreFault,
)
    requires
        request.question == Some(q),
    ensures
        ({
            let after = learned_address(known, request, address);
            &&& after.latest == known.latest
            &&& if q.qtype == 28 && known.address is None {
                after.address == Some(address) && after.address_again == known.address_again
            } else {
                after.address_again == Some(address) && after.address == known.address
            }
        }),
        learned_latest(known, latest).latest == Some(latest),
        learned_latest(known, latest).address == known.address,
        learned_latest(known, latest).address_again == known.address_again,
        found_address(OutcomeView::Entry(Some(entry))) == Some(entry.value),
        found_address(OutcomeView::Entry(None)) is None,
        found_address(OutcomeView::Failed(fault)) is None,
        found_latest(OutcomeView::Latest(latest)) == latest,
        found_latest(OutcomeView::Failed(fault)) is None,
        nothing_known().address is None,
        nothing_known().latest is None,
        nothing_known().address_again is None,
{
}

} // verus!
