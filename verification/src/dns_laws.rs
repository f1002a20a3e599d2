//! What holds of the answers of the DNS server.
use vstd::prelude::*;
use vstd::utf8::encode_scalar;
use vstd::utf8::encode_utf8_decode_utf8;
use vstd::utf8::encode_utf8_valid_utf8;
use vstd::utf8::is_ascii_chars_encode_utf8;

use crate::bytes::lower_octet;
use crate::bytes::lower_octets;
use crate::clock::TimestampView;
use crate::config::DnsConfig;
use crate::database::completes;
use crate::database::consistent;
use crate::database::law_added_name_resolves;
use crate::database::live;
use crate::database::Db;
use crate::dns::aaaa_record;
use crate::dns::answer_plan;
use crate::dns::answered;
use crate::dns::asked_response;
use crate::dns::fitted;
use crate::dns::found_address;
use crate::dns::id_of;
use crate::dns::in_zone;
use crate::dns::is_apex;
use crate::dns::is_set_up;
use crate::dns::learned_address;
use crate::dns::learned_latest;
use crate::dns::nothing_known;
use crate::dns::ns_records;
use crate::dns::payload_limit;
use crate::dns::plan_of;
use crate::dns::signature_fits;
use crate::dns::signed;
use crate::dns::signed_by;
use crate::dns::signatures_fit;
use crate::dns::size_of_response;
use crate::dns::soa_record;
use crate::dns::wants_dnssec;
use crate::dns::zone_rrset;
use crate::dns::DraftView;
use crate::dns::KnownView;
use crate::dns::PlanView;
use crate::dns::ServerView;
use crate::idprov::hex_char;
use crate::idprov::random_offered;
use crate::message::is_address_reply;
use crate::message::message_encoding;
use crate::message::size_fits;
use crate::message::MessageType;
use crate::message::QuestionView;
use crate::message::RequestView;
use crate::message::ResponseView;
use crate::message::NOT_IMPLEMENTED;
use crate::message::NX_DOMAIN;
use crate::message::OP_QUERY;
use crate::message::REFUSED;
use crate::name::black_lies_next;
use crate::name::dotted;
use crate::name::lemma_dotted_ascii;
use crate::name::lemma_dotted_injective;
use crate::name::label_text;
use crate::name::law_plain_name_is_shown_as_read;
use crate::name::law_shown_name_is_read_again;
use crate::name::law_wire_form_is_short;
use crate::name::lower_labels;
use crate::name::name_of;
use crate::name::plain_name;
use crate::name::plain_labels;
use crate::name::valid_labels;
use crate::name::zone_of;
use crate::name::NameView;
use crate::record::type_of;
use crate::record::RecordView;
use crate::record::CLASS_IN;
use crate::record::TYPE_AAAA;
use crate::record::TYPE_NSEC;
use crate::record::TYPE_RRSIG;
use crate::store::key_of;
use crate::store::resolved;
use crate::store::start_add;
use crate::store::start_resolve;
use crate::store::Store;
use crate::store::StoreView;
use crate::task::EntryView;
use crate::task::EventView;
use crate::task::OutcomeView;
use crate::task::ResolvedView;
use crate::text::ascii_text;
use crate::text::lower_char;
use crate::text::lower_chars;
use crate::text::lowered;
use crate::zone::nsec_record;
use crate::zone::section;
use crate::zone::with_signature;
use crate::zone::RrsetView;

verus! {

/// A question for the address of a name.
pub open spec fn address_question(name: NameView) -> QuestionView {
    QuestionView { name, qtype: TYPE_AAAA, qclass: CLASS_IN }
}

/// The name stands directly below the zone, under this id.
pub open spec fn is_name_of(server: ServerView, id: Seq<char>, name: NameView) -> bool {
    name.labels == seq![key_of(id)] + server.domain.labels
}

/// An id as it is looked up: its ASCII letters made small, and then the others.
pub open spec fn small(id: Seq<char>) -> Seq<char> {
    lowered(lower_chars(id))
}

/// To make ASCII letters small is the same before and after a character is written in UTF-8.
proof fn lemma_lower_scalar(c: char)
    ensures
        lower_octets(encode_scalar(c as u32)) == encode_scalar(lower_char(c) as u32),
{
    let s = c as u32;
    let octets = encode_scalar(s);
    if s <= 0x7f {
        assert((s & 0x7f) as u8 == s as u8) by (bit_vector)
            requires
                s <= 0x7f,
        ;
        let t = lower_char(c) as u32;
        assert((t & 0x7f) as u8 == t as u8) by (bit_vector)
            requires
                t <= 0x7f,
        ;
        assert(lower_octets(octets) =~= encode_scalar(t));
    } else {
        assert(forall|x: u8| #[trigger] (0xC0 | x) >= 0x80) by (bit_vector);
        assert(forall|x: u8| #[trigger] (0xE0 | x) >= 0x80) by (bit_vector);
        assert(forall|x: u8| #[trigger] (0xF0 | x) >= 0x80) by (bit_vector);
        assert(forall|x: u8| #[trigger] (0x80 | x) >= 0x80) by (bit_vector);
        assert(forall|i: int| 0 <= i < octets.len() ==> #[trigger] octets[i] >= 0x80);
        assert(lower_octets(octets) =~= octets);
    }
}

/// To make ASCII letters small is the same before and after a text is written in UTF-8.
proof fn lemma_lower_key(id: Seq<char>)
    ensures
        lower_octets(key_of(id)) == key_of(lower_chars(id)),
    decreases id.len(),
{
    if id.len() == 0 {
        assert(lower_octets(key_of(id)) =~= key_of(lower_chars(id)));
    } else {
        let rest = id.drop_first();
        lemma_lower_scalar(id[0]);
        lemma_lower_key(rest);
        assert(lower_chars(id).drop_first() =~= lower_chars(rest));
        assert(lower_octets(key_of(id)) =~= lower_octets(encode_scalar(id[0] as u32))
            + lower_octets(key_of(rest)));
    }
}

proof fn lemma_name_of(server: ServerView, id: Seq<char>, name: NameView)
    requires
        is_name_of(server, id, name),
        server.domain.labels.len() > 0,
    ensures
        in_zone(server, name),
        id_of(name) == Some(small(id)),
{
    let zone = server.domain.labels;
    lemma_lower_key(id);
    encode_utf8_valid_utf8(lower_chars(id));
    encode_utf8_decode_utf8(lower_chars(id));
    assert(name.labels[0] == key_of(id));
    assert(name.labels.skip(1) =~= zone);
    assert(lower_labels(name.labels).skip(1) =~= lower_labels(zone));
    assert(zone_of(zone, name.labels));
}

/// The record set that answers a question for the address of a name.
pub open spec fn address_rrset(server: ServerView, name: NameView, address: Seq<u8>) -> RrsetView {
    RrsetView {
        records: seq![aaaa_record(server, name, address)],
        owner: name,
        ttl: server.ttl,
    }
}

/// The response to a question for the address of a name, without signatures: the address record
/// alone.
pub open spec fn address_response(
    server: ServerView,
    request: RequestView,
    name: NameView,
    address: Seq<u8>,
) -> ResponseView {
    ResponseView {
        answers: seq![aaaa_record(server, name, address)],
        ..asked_response(request)
    }
}

/// How many octets a reply with one address takes at most.
pub const LARGEST_ADDRESS_REPLY: u16 = 299;

/// Law: a question for the address of a name below the zone looks up its id in small letters, and
/// is answered with the address that is found.
pub proof fn law_known_name_is_answered(
    server: ServerView,
    request: RequestView,
    name: NameView,
    id: Seq<char>,
    known: KnownView,
)
    requires
        server.domain.labels.len() > 0,
        is_name_of(server, id, name),
        request.question == Some(address_question(name)),
    ensures
        known.address is None ==> plan_of(server, request, known) == PlanView::Lookup(small(id)),
        known.address matches Some(Some(address)) ==> plan_of(server, request, known)
            == PlanView::Sign(
            DraftView {
                head: asked_response(request),
                answers: seq![address_rrset(server, name, address)],
                authority: seq![],
            },
        ),
{
    lemma_name_of(server, id, name);
}

/// Law: to a client that does not ask for DNSSEC, the response that is sent for a name with a
/// known address holds exactly the address record. A client that takes fewer octets than any
/// such reply can have may get it cut down; one that does not tell takes more.
pub proof fn law_known_address_is_sent(
    server: ServerView,
    request: RequestView,
    name: NameView,
    id: Seq<char>,
    address: Seq<u8>,
    known: KnownView,
    response: ResponseView,
)
    requires
        server.domain.labels.len() > 0,
        valid_labels(name.labels),
        is_name_of(server, id, name),
        request.question == Some(address_question(name)),
        known.address == Some(Some(address)),
        !wants_dnssec(request),
        request.edns is None || payload_limit(request) >= LARGEST_ADDRESS_REPLY,
        may_respond(server, request, known, response),
    ensures
        response == address_response(server, request, name, address),
        response.response_code == 0,
        response.authoritative,
        !response.truncated,
{
    law_known_name_is_answered(server, request, name, id, known);
    let draft = plan_of(server, request, known)->Sign_0;
    let full = choose|full: ResponseView| #[trigger]
        signed_by(server, request, draft, full) && response == fitted(
            request,
            full,
            size_of_response(full),
        ) && size_fits(full, size_of_response(full));
    let (a, b) = choose|a: Seq<Option<Seq<u8>>>, b: Seq<Option<Seq<u8>>>|
        full == #[trigger] signed(draft, a, b) && signatures_fit(server, request, draft.answers, a)
            && signatures_fit(server, request, draft.authority, b);
    assert(signature_fits(server, request, draft.answers[0], a[0]));
    assert(a[0] is None);
    let none = Seq::<RecordView>::empty();
    assert(section(draft.answers.drop_last(), a.drop_last()) =~= none);
    assert(section(draft.authority, b) =~= none);
    assert(section(draft.answers, a) =~= none + with_signature(draft.answers.last(), a.last()));
    assert(section(draft.answers, a) =~= draft.answers[0].records);
    assert(full =~= address_response(server, request, name, address));
    law_wire_form_is_short(name.labels);
    assert(is_address_reply(full));
}

/// Law: a name that was given out is answered with its address until it expires. The server looks
/// up the id of the name, finds the entry, and answers with the address that asked for the name.
/// To a client that does not ask for DNSSEC, and takes as many octets as every client does that
/// does not tell, the response that is sent holds exactly this answer. The id must be in small
/// letters, as the server looks up no others.
pub proof fn law_given_name_is_answered_with_its_address(
    store: StoreView,
    db: Db,
    ip: Seq<u8>,
    events: Seq<EventView>,
    db2: Db,
    r: ResolvedView,
    server: ServerView,
    request: RequestView,
    name: NameView,
    later: Seq<EventView>,
    db3: Db,
    outcome: OutcomeView,
    response: ResponseView,
)
    requires
        consistent(db),
        completes(store, db, start_add(ip), events, db2, OutcomeView::Added(r)),
        small(r.id) == r.id,
        server.domain.labels.len() > 0,
        is_name_of(server, r.id, name),
        valid_labels(name.labels),
        request.question == Some(address_question(name)),
        live(r.entry, later),
        completes(store, db2, start_resolve(r.id), later, db3, outcome),
    ensures
        plan_of(server, request, nothing_known()) == PlanView::Lookup(r.id),
        ({
            let known = learned_address(nothing_known(), request, found_address(outcome));
            let full = address_response(server, request, name, ip);
            &&& plan_of(server, request, known) == PlanView::Sign(
                DraftView {
                    head: asked_response(request),
                    answers: seq![address_rrset(server, name, ip)],
                    authority: seq![],
                },
            )
            &&& !wants_dnssec(request) && (request.edns is None || payload_limit(request)
                >= LARGEST_ADDRESS_REPLY) && may_respond(server, request, known, response) ==> {
                &&& response == full
                &&& response.response_code == 0
                &&& response.authoritative
                &&& !response.truncated
                &&& response.answers == seq![aaaa_record(server, name, ip)]
                &&& response.name_servers.len() == 0
            }
        }),
{
    law_added_name_resolves(store, db, ip, events, db2, r, later, db3, outcome);
    let known = learned_address(nothing_known(), request, found_address(outcome));
    let full = address_response(server, request, name, ip);
    assert(found_address(outcome) == Some(ip));
    assert(known.address == Some(Some(ip)));
    law_known_name_is_answered(server, request, name, r.id, nothing_known());
    law_known_name_is_answered(server, request, name, r.id, known);
    if !wants_dnssec(request) && (request.edns is None || payload_limit(request)
        >= LARGEST_ADDRESS_REPLY) && may_respond(server, request, known, response) {
        law_known_address_is_sent(server, request, name, r.id, ip, known, response);
    }
}

/// Law: a question for a name outside the zone is refused, without authority and without records.
pub proof fn law_foreign_name_is_refused(
    server: ServerView,
    request: RequestView,
    q: QuestionView,
    known: KnownView,
)
    requires
        request.question == Some(q),
        q.qclass == CLASS_IN,
        !in_zone(server, q.name),
    ensures
        plan_of(server, request, known) matches PlanView::Reply(response) && {
            &&& response.response_code == REFUSED
            &&& !response.authoritative
            &&& response.answers.len() == 0
            &&& response.name_servers.len() == 0
        },
{
}

/// Law: a question of another class than IN is not implemented, and has no records.
pub proof fn law_other_class_is_not_implemented(
    server: ServerView,
    request: RequestView,
    q: QuestionView,
    known: KnownView,
)
    requires
        request.question == Some(q),
        q.qclass != CLASS_IN,
    ensures
        plan_of(server, request, known) matches PlanView::Reply(response) && {
            &&& response.response_code == NOT_IMPLEMENTED
            &&& response.answers.len() == 0
            &&& response.name_servers.len() == 0
        },
{
}

/// Law: a name below the zone that the store does not know does not exist. The start of authority
/// says so, and for a client that asks for DNSSEC the name is shown to have no types but those of
/// the proof, up to its immediate successor.
pub proof fn law_unknown_name_does_not_exist(
    server: ServerView,
    request: RequestView,
    q: QuestionView,
    known: KnownView,
)
    requires
        request.question == Some(q),
        q.qclass == CLASS_IN,
        in_zone(server, q.name),
        !is_apex(server, q.name),
        server.ns.len() > 0,
        known.latest is Some,
        id_of(q.name) is Some ==> known.address_again == Some(None::<Seq<u8>>),
        id_of(q.name) is Some && q.qtype == TYPE_AAAA ==> known.address == Some(None::<Seq<u8>>),
    ensures
        plan_of(server, request, known) matches PlanView::Sign(draft) && {
            &&& draft.head.response_code == NX_DOMAIN
            &&& draft.head.authoritative
            &&& draft.answers.len() == 0
            &&& draft.authority[0] == zone_rrset(server, soa_record(server, known.latest->0))
            &&& !wants_dnssec(request) ==> draft.authority.len() == 1
            &&& wants_dnssec(request) ==> {
                &&& draft.authority.len() == 2
                &&& draft.authority[1].records == seq![
                    nsec_record(q.name, black_lies_next(q.name), seq![TYPE_RRSIG, TYPE_NSEC]),
                ]
            }
        },
{
}

/// Law: a name that the store knows exists, also where a question for another type than its
/// address has no answer.
pub proof fn law_known_name_exists(
    server: ServerView,
    request: RequestView,
    q: QuestionView,
    known: KnownView,
    address: Seq<u8>,
)
    requires
        request.question == Some(q),
        q.qclass == CLASS_IN,
        q.qtype != TYPE_AAAA,
        in_zone(server, q.name),
        !is_apex(server, q.name),
        server.ns.len() > 0,
        known.latest is Some,
        id_of(q.name) is Some,
        known.address_again == Some(Some(address)),
    ensures
        plan_of(server, request, known) matches PlanView::Sign(draft) && {
            &&& draft.head.response_code == 0
            &&& draft.answers.len() == 0
            &&& draft.authority[0] == zone_rrset(server, soa_record(server, known.latest->0))
        },
{
}

/// `response` may be sent for a request.
pub open spec fn may_respond(
    server: ServerView,
    request: RequestView,
    known: KnownView,
    response: ResponseView,
) -> bool {
    match plan_of(server, request, known) {
        PlanView::Reply(reply) => response == reply,
        PlanView::Sign(draft) => answered(server, request, draft, response),
        _ => false,
    }
}

/// Law: every response is a response to a standard query without recursion. It has the number of
/// its request, repeats its question and its wish for recursion, carries the extension exactly
/// where DNSSEC was asked for, and has authority unless it refuses.
pub proof fn law_response_belongs_to_request(
    server: ServerView,
    request: RequestView,
    known: KnownView,
    response: ResponseView,
)
    requires
        may_respond(server, request, known, response),
    ensures
        response.message_type == MessageType::Response,
        response.op_code == OP_QUERY,
        !response.recursion_available,
        response.authoritative == (response.response_code != REFUSED),
        response.id == request.id,
        response.question == request.question,
        response.recursion_desired == request.recursion_desired,
        response.edns is Some <==> wants_dnssec(request),
{
}

/// Law: a response that was cut down carries no records and keeps what the full one says in its
/// header, and any other with records takes no more octets than the client takes.
pub proof fn law_response_fits(
    server: ServerView,
    request: RequestView,
    known: KnownView,
    response: ResponseView,
)
    requires
        may_respond(server, request, known, response),
    ensures
        response.truncated ==> response.answers.len() == 0 && response.name_servers.len() == 0,
        plan_of(server, request, known) matches PlanView::Sign(draft) ==> response == (
        ResponseView {
            truncated: response.truncated,
            answers: response.answers,
            name_servers: response.name_servers,
            ..draft.head
        }),
        !response.truncated && (response.answers.len() > 0 || response.name_servers.len() > 0)
            ==> (message_encoding(response) matches Some(octets) ==> octets.len()
            <= payload_limit(request)),
{
    if let PlanView::Sign(draft) = plan_of(server, request, known) {
        let full = choose|full: ResponseView| #[trigger]
            signed_by(server, request, draft, full) && response == fitted(
                request,
                full,
                size_of_response(full),
            );
        assert(!full.truncated);
    }
}

/// No record is a signature or a proof of absence.
pub open spec fn free_of_dnssec(records: Seq<RecordView>) -> bool {
    forall|i: int|
        0 <= i < records.len() ==> type_of((#[trigger] records[i]).data) != TYPE_RRSIG && type_of(
            records[i].data,
        ) != TYPE_NSEC
}

proof fn lemma_section_free(rrsets: Seq<RrsetView>, signatures: Seq<Option<Seq<u8>>>)
    requires
        rrsets.len() == signatures.len(),
        forall|i: int| 0 <= i < rrsets.len() ==> (#[trigger] signatures[i]) is None,
        forall|i: int| 0 <= i < rrsets.len() ==> free_of_dnssec((#[trigger] rrsets[i]).records),
    ensures
        free_of_dnssec(section(rrsets, signatures)),
    decreases rrsets.len(),
{
    if rrsets.len() > 0 {
        let front = rrsets.drop_last();
        let front_signatures = signatures.drop_last();
        assert forall|i: int| 0 <= i < front.len() implies (#[trigger] front_signatures[i])
            is None by {
            assert(front_signatures[i] == signatures[i]);
        }
        assert forall|i: int| 0 <= i < front.len() implies free_of_dnssec(
            (#[trigger] front[i]).records,
        ) by {
            assert(front[i] == rrsets[i]);
        }
        lemma_section_free(front, front_signatures);
        let last = rrsets.len() - 1;
        assert(signatures[last] is None);
        assert(free_of_dnssec(rrsets[last].records));
    }
}

proof fn lemma_ns_records_free(server: ServerView, ns: Seq<Seq<char>>)
    ensures
        free_of_dnssec(ns_records(server, ns)),
    decreases ns.len(),
{
    if ns.len() > 0 {
        lemma_ns_records_free(server, ns.drop_last());
    }
}

/// Law: a client that does not ask for DNSSEC gets no signatures and no proofs of absence.
pub proof fn law_no_dnssec_unless_asked_for(
    server: ServerView,
    request: RequestView,
    known: KnownView,
    response: ResponseView,
)
    requires
        may_respond(server, request, known, response),
        !wants_dnssec(request),
    ensures
        free_of_dnssec(response.answers),
        free_of_dnssec(response.name_servers),
{
    if let PlanView::Sign(draft) = plan_of(server, request, known) {
        let full = choose|full: ResponseView| #[trigger]
            signed_by(server, request, draft, full) && response == fitted(
                request,
                full,
                size_of_response(full),
            );
        let (a, b) = choose|a: Seq<Option<Seq<u8>>>, b: Seq<Option<Seq<u8>>>|
            full == #[trigger] signed(draft, a, b) && signatures_fit(
                server,
                request,
                draft.answers,
                a,
            ) && signatures_fit(server, request, draft.authority, b);
        assert forall|i: int| 0 <= i < a.len() implies (#[trigger] a[i]) is None by {
            assert(signature_fits(server, request, draft.answers[i], a[i]));
        }
        assert forall|i: int| 0 <= i < b.len() implies (#[trigger] b[i]) is None by {
            assert(signature_fits(server, request, draft.authority[i], b[i]));
        }
        lemma_ns_records_free(server, server.ns);
        assert forall|i: int| 0 <= i < draft.answers.len() implies free_of_dnssec(
            (#[trigger] draft.answers[i]).records,
        ) by {}
        assert forall|i: int| 0 <= i < draft.authority.len() implies free_of_dnssec(
            (#[trigger] draft.authority[i]).records,
        ) by {}
        lemma_section_free(draft.answers, a);
        lemma_section_free(draft.authority, b);
    }
}

/// How many answers of the store are not known.
pub open spec fn unknown_answers(known: KnownView) -> int {
    (if known.address is None {
        1int
    } else {
        0
    }) + (if known.latest is None {
        1int
    } else {
        0
    }) + (if known.address_again is None {
        1int
    } else {
        0
    })
}

/// Law: the server never asks the store for what it has told. Each answer leaves one less to ask
/// for, and with three of them every request is answered.
pub proof fn law_each_answer_brings_the_response_nearer(
    server: ServerView,
    request: RequestView,
    known: KnownView,
    address: Option<Seq<u8>>,
    latest: Option<TimestampView>,
)
    ensures
        plan_of(server, request, known) is Lookup ==> unknown_answers(
            learned_address(known, request, address),
        ) < unknown_answers(known),
        plan_of(server, request, known) is Latest ==> unknown_answers(
            learned_latest(known, latest),
        ) < unknown_answers(known),
        unknown_answers(known) == 0 ==> !(plan_of(server, request, known) is Lookup) && !(plan_of(
            server,
            request,
            known,
        ) is Latest),
        unknown_answers(nothing_known()) == 3,
{
    if let Some(q) = request.question {
        let answers = answer_plan(server, q, known);
    }
}

/// No character is an ASCII capital letter.
pub open spec fn no_capitals(text: Seq<char>) -> bool {
    forall|i: int| 0 <= i < text.len() ==> !('A' <= #[trigger] text[i] <= 'Z')
}

/// Law: an id of ASCII characters without capital letters is in small letters: it is looked up as
/// it is.
pub proof fn law_ascii_id_without_capitals_is_small(id: Seq<char>)
    requires
        ascii_text(id),
        no_capitals(id),
    ensures
        small(id) == id,
{
    assert forall|i: int| 0 <= i < id.len() implies lower_char(#[trigger] id[i]) == id[i] by {}
    assert(lower_chars(id) =~= id);
}

/// Law: the ids that are made at random are in small letters.
pub proof fn law_random_ids_are_in_small_letters(id_len: usize, id: Seq<char>)
    requires
        random_offered(id_len, id),
    ensures
        ascii_text(id),
        small(id) == id,
{
    assert forall|i: int| 0 <= i < id.len() implies '\0' <= #[trigger] id[i] <= '\u{7f}' by {
        assert(hex_char(id[i]));
    }
    assert forall|i: int| 0 <= i < id.len() implies !('A' <= #[trigger] id[i] <= 'Z') by {
        assert(hex_char(id[i]));
    }
    law_ascii_id_without_capitals_is_small(id);
}

/// Law: the full name of an entry is read as the name that stands directly below the zone under
/// its id, where it is made of plain labels, and with a dot behind it as that name fully
/// qualified.
pub proof fn law_full_name_is_the_name_below_the_zone(
    server: ServerView,
    id: Seq<char>,
    entry: EntryView,
    name: NameView,
)
    requires
        ascii_text(id),
        server.domain.labels.len() > 0,
        server.domain_text == dotted(server.domain.labels),
        is_name_of(server, id, name),
        plain_labels(name.labels),
    ensures
        name_of(
            if name.fqdn {
                resolved(server.domain_text, id, entry).dns_name.push('.')
            } else {
                resolved(server.domain_text, id, entry).dns_name
            },
        ) == Some(name),
{
    reveal_strlit(".");
    is_ascii_chars_encode_utf8(id);
    let label = key_of(id);
    assert(name.labels[0] == label);
    assert(name.labels.drop_first() =~= server.domain.labels);
    assert forall|i: int| 0 <= i < id.len() implies #[trigger] label_text(label)[i] == id[i] by {
        let c = id[i];
        assert(label[i] == c as u8);
        assert(c <= '\u{7f}');
        assert((c as u8) as char == c);
    }
    assert(label_text(label) =~= id);
    assert(id + "."@ + server.domain_text =~= label_text(label).push('.') + dotted(
        name.labels.drop_first(),
    ));
    law_shown_name_is_read_again(name);
}

/// Law: a zone that was configured as plain labels with dots between them has that text.
pub proof fn law_plain_zone_is_its_text(server: ServerView, config: DnsConfig, store: Store)
    requires
        is_set_up(server, config, store),
        plain_name(store@.domain) is Some,
        !plain_name(store@.domain)->0.fqdn,
    ensures
        server.domain_text == dotted(server.domain.labels),
        server.domain.labels.len() > 0,
{
    law_plain_name_is_shown_as_read(store@.domain);
}

proof fn lemma_dotted_lower(labels: Seq<Seq<u8>>)
    ensures
        lower_chars(dotted(labels)) == dotted(lower_labels(labels)),
    decreases labels.len(),
{
    let lower = |c: char| lower_char(c);
    let low = lower_labels(labels);
    if labels.len() == 0 {
        assert(dotted(labels).map_values(lower) =~= dotted(low));
    } else {
        let rest = labels.drop_first();
        lemma_dotted_lower(rest);
        assert(low.drop_first() =~= lower_labels(rest));
        let label = labels[0];
        assert(low[0] == lower_octets(label));
        let text = label_text(label).map_values(lower);
        assert forall|i: int| 0 <= i < label.len() implies #[trigger] text[i] == label_text(
            lower_octets(label),
        )[i] by {
            lemma_lower_char(label[i]);
        }
        assert(text =~= label_text(low[0]));
        if labels.len() == 1 {
            assert(dotted(labels) == label_text(label));
            assert(dotted(low) == label_text(low[0]));
        } else {
            assert(dotted(labels).map_values(lower) =~= text.push('.') + dotted(rest).map_values(
                lower,
            ));
        }
    }
}

proof fn lemma_lower_char(b: u8)
    ensures
        lower_char(b as char) == lower_octet(b) as char,
{
}

/// Law: of names with plain labels, exactly the name of the zone is the zone itself, whatever the
/// case of its letters.
pub proof fn law_apex_is_the_zone_in_any_case(server: ServerView, name: NameView)
    requires
        server.domain_text == dotted(server.domain.labels),
        plain_labels(server.domain.labels),
        plain_labels(lower_labels(server.domain.labels)),
        name.fqdn,
        plain_labels(lower_labels(name.labels)),
    ensures
        is_apex(server, name) <==> lower_labels(name.labels) == lower_labels(server.domain.labels),
{
    reveal_strlit(".");
    let zone = server.domain.labels;
    let text = server.domain_text + "."@;
    lemma_dotted_ascii(zone);
    lemma_dotted_lower(zone);
    assert forall|i: int| 0 <= i < text.len() implies '\0' <= #[trigger] text[i] <= '\u{7f}' by {
        if i < server.domain_text.len() {
            assert(text[i] == dotted(zone)[i]);
        }
    }
    let low_zone = lower_labels(zone);
    let low_name = lower_labels(name.labels);
    assert(lowered(text) =~= dotted(low_zone).push('.'));
    if is_apex(server, name) {
        assert(dotted(low_name).push('.').drop_last() =~= dotted(low_name));
        assert(dotted(low_zone).push('.').drop_last() =~= dotted(low_zone));
        lemma_dotted_injective(low_name, low_zone);
    }
}

/// The requests are the same but for the case of ASCII letters in the name that they ask for.
pub open spec fn same_but_case(a: RequestView, b: RequestView) -> bool {
    &&& a.id == b.id
    &&& a.recursion_desired == b.recursion_desired
    &&& a.edns == b.edns
    &&& match (a.question, b.question) {
        (Some(p), Some(q)) => {
            &&& lower_labels(p.name.labels) == lower_labels(q.name.labels)
            &&& p.name.fqdn == q.name.fqdn
            &&& p.qtype == q.qtype
            &&& p.qclass == q.qclass
        },
        (None, None) => true,
        _ => false,
    }
}

/// The records have the same data and the same time to live, one by one.
pub open spec fn same_data(a: Seq<RecordView>, b: Seq<RecordView>) -> bool {
    &&& a.len() == b.len()
    &&& forall|i: int|
        0 <= i < a.len() ==> (#[trigger] a[i]).data == b[i].data && a[i].ttl == b[i].ttl
}

/// The responses have the same codes and flags, and the same data in their records.
pub open spec fn same_answer(x: ResponseView, y: ResponseView) -> bool {
    &&& x.response_code == y.response_code
    &&& x.authoritative == y.authoritative
    &&& x.truncated == y.truncated
    &&& same_data(x.answers, y.answers)
    &&& same_data(x.name_servers, y.name_servers)
}

/// The record sets have the same data, one by one.
spec fn same_rrsets(a: Seq<RrsetView>, b: Seq<RrsetView>) -> bool {
    &&& a.len() == b.len()
    &&& forall|i: int| 0 <= i < a.len() ==> same_data((#[trigger] a[i]).records, b[i].records)
}

/// The plans ask the store the same, or answer the same.
spec fn same_plan(a: PlanView, b: PlanView) -> bool {
    match (a, b) {
        (PlanView::Reply(x), PlanView::Reply(y)) => same_answer(x, y),
        (PlanView::Sign(x), PlanView::Sign(y)) => {
            &&& same_answer(x.head, y.head)
            &&& same_rrsets(x.answers, y.answers)
            &&& same_rrsets(x.authority, y.authority)
        },
        _ => a == b,
    }
}

proof fn lemma_same_name(server: ServerView, a: NameView, b: NameView)
    requires
        lower_labels(a.labels) == lower_labels(b.labels),
        a.fqdn == b.fqdn,
    ensures
        is_apex(server, a) == is_apex(server, b),
        in_zone(server, a) == in_zone(server, b),
        id_of(a) == id_of(b),
{
    let zone = server.domain.labels;
    assert(a.labels.len() == lower_labels(a.labels).len());
    assert(b.labels.len() == lower_labels(b.labels).len());
    let n = a.labels.len() - zone.len();
    if n >= 0 {
        assert(lower_labels(a.labels.skip(n)) =~= lower_labels(a.labels).skip(n));
        assert(lower_labels(b.labels.skip(n)) =~= lower_labels(b.labels).skip(n));
    }
    if a.labels.len() > 0 {
        assert(lower_labels(a.labels)[0] == lower_octets(a.labels[0]));
        assert(lower_labels(b.labels)[0] == lower_octets(b.labels[0]));
    }
}

proof fn lemma_same_plan(server: ServerView, a: RequestView, b: RequestView, known: KnownView)
    requires
        same_but_case(a, b),
        !wants_dnssec(a),
    ensures
        same_plan(plan_of(server, a, known), plan_of(server, b, known)),
{
    if let (Some(p), Some(q)) = (a.question, b.question) {
        lemma_same_name(server, p.name, q.name);
    }
}

proof fn lemma_same_section(
    a: Seq<RrsetView>,
    b: Seq<RrsetView>,
    x: Seq<Option<Seq<u8>>>,
    y: Seq<Option<Seq<u8>>>,
)
    requires
        same_rrsets(a, b),
        x.len() == a.len(),
        y.len() == b.len(),
        forall|i: int| 0 <= i < x.len() ==> (#[trigger] x[i]) is None,
        forall|i: int| 0 <= i < y.len() ==> (#[trigger] y[i]) is None,
    ensures
        same_data(section(a, x), section(b, y)),
    decreases a.len(),
{
    if a.len() > 0 {
        let last = a.len() - 1;
        assert(x[last] is None && y[last] is None);
        assert(same_data(a[last].records, b[last].records));
        let fa = a.drop_last();
        let fb = b.drop_last();
        assert forall|i: int| 0 <= i < fa.len() implies same_data(
            (#[trigger] fa[i]).records,
            fb[i].records,
        ) by {
            assert(fa[i] == a[i]);
        }
        lemma_same_section(fa, fb, x.drop_last(), y.drop_last());
        let sa = section(fa, x.drop_last());
        let sb = section(fb, y.drop_last());
        let ra = a[last].records;
        let rb = b[last].records;
        assert(section(a, x) =~= sa + ra);
        assert(section(b, y) =~= sb + rb);
        assert forall|i: int| 0 <= i < (sa + ra).len() implies (#[trigger] (sa + ra)[i]).data == (sb
            + rb)[i].data && (sa + ra)[i].ttl == (sb + rb)[i].ttl by {
            if i < sa.len() {
                assert((sa + ra)[i] == sa[i]);
            } else {
                assert((sa + ra)[i] == ra[i - sa.len()]);
            }
        }
    }
}

/// The response that is sent to a client that does not ask for DNSSEC, when it is not cut down:
/// that of the plan, its sections without signatures.
proof fn lemma_unsigned(
    server: ServerView,
    request: RequestView,
    draft: DraftView,
    response: ResponseView,
) -> (r: (Seq<Option<Seq<u8>>>, Seq<Option<Seq<u8>>>))
    requires
        answered(server, request, draft, response),
        !wants_dnssec(request),
        !response.truncated,
    ensures
        response == signed(draft, r.0, r.1),
        r.0.len() == draft.answers.len(),
        r.1.len() == draft.authority.len(),
        forall|i: int| 0 <= i < r.0.len() ==> (#[trigger] r.0[i]) is None,
        forall|i: int| 0 <= i < r.1.len() ==> (#[trigger] r.1[i]) is None,
{
    let full = choose|full: ResponseView| #[trigger]
        signed_by(server, request, draft, full) && response == fitted(
            request,
            full,
            size_of_response(full),
        );
    let (a, b) = choose|a: Seq<Option<Seq<u8>>>, b: Seq<Option<Seq<u8>>>|
        full == #[trigger] signed(draft, a, b) && signatures_fit(server, request, draft.answers, a)
            && signatures_fit(server, request, draft.authority, b);
    assert forall|i: int| 0 <= i < a.len() implies (#[trigger] a[i]) is None by {
        assert(signature_fits(server, request, draft.answers[i], a[i]));
    }
    assert forall|i: int| 0 <= i < b.len() implies (#[trigger] b[i]) is None by {
        assert(signature_fits(server, request, draft.authority[i], b[i]));
    }
    (a, b)
}

/// Law: the case of ASCII letters in the name makes no difference to what the server asks the
/// store.
pub proof fn law_letter_case_asks_the_same(
    server: ServerView,
    a: RequestView,
    b: RequestView,
    known: KnownView,
)
    requires
        same_but_case(a, b),
    ensures
        match plan_of(server, a, known) {
            PlanView::Reply(_) => plan_of(server, b, known) is Reply,
            PlanView::Sign(_) => plan_of(server, b, known) is Sign,
            plan => plan_of(server, b, known) == plan,
        },
{
    if let (Some(p), Some(q)) = (a.question, b.question) {
        lemma_same_name(server, p.name, q.name);
    }
}

/// Law: to a client that does not ask for DNSSEC, the case of ASCII letters in the name makes no
/// difference to the codes and flags of the response, nor to the number and the data of its
/// records, unless a response is cut down.
pub proof fn law_letter_case_makes_no_difference(
    server: ServerView,
    a: RequestView,
    b: RequestView,
    known: KnownView,
    x: ResponseView,
    y: ResponseView,
)
    requires
        same_but_case(a, b),
        !wants_dnssec(a),
        may_respond(server, a, known, x),
        may_respond(server, b, known, y),
        !x.truncated,
        !y.truncated,
    ensures
        same_answer(x, y),
{
    lemma_same_plan(server, a, b, known);
    if let (PlanView::Sign(p), PlanView::Sign(q)) = (
        plan_of(server, a, known),
        plan_of(server, b, known),
    ) {
        let (xa, xb) = lemma_unsigned(server, a, p, x);
        let (ya, yb) = lemma_unsigned(server, b, q, y);
        lemma_same_section(p.answers, q.answers, xa, ya);
        lemma_same_section(p.authority, q.authority, xb, yb);
    }
}

} // verus!
