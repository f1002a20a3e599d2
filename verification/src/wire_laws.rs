//! What names, records, keys and signatures look like on the wire, octet by octet.
use vstd::prelude::*;

use crate::bytes::be16;
use crate::bytes::be32;
use crate::bytes::be_i32;
use crate::bytes::concat;
use crate::bytes::keyed_le;
use crate::bytes::lemma_octets_le_antisymmetric;
use crate::bytes::lower_octets;
use crate::bytes::octets_le;
use crate::crypto::ecdsa_verifies;
use crate::crypto::sha256;
use crate::dnssec::canonical_record;
use crate::dnssec::canonical_records;
use crate::dnssec::clock_was_early;
use crate::dnssec::could_not_sign;
use crate::dnssec::dnskey_wire;
use crate::dnssec::ds_text;
use crate::dnssec::hex;
use crate::dnssec::hex_digit;
use crate::dnssec::is_rrset;
use crate::dnssec::is_rrsig;
use crate::dnssec::is_some_rrsig;
use crate::dnssec::key_tag_of;
use crate::dnssec::law_signed_message_is_sorted_by_data;
use crate::dnssec::message_at;
use crate::dnssec::rrsig_head;
use crate::dnssec::sorted_by_data;
use crate::dnssec::time_was_read;
use crate::dnssec::word_sum;
use crate::dnssec::SignerView;
use crate::message::request_read;
use crate::message::RequestParts;
use crate::name::black_lies_next;
use crate::name::counted_labels;
use crate::name::law_wire_form_is_short;
use crate::name::lower_labels;
use crate::name::name_wire;
use crate::name::valid_labels;
use crate::name::NameView;
use crate::outside::signing_failed;
use crate::record::rdata_wire;
use crate::record::type_of;
use crate::record::RecordDataView;
use crate::record::RecordView;
use crate::record::SoaView;
use crate::text::decimal;

verus! {

/// The number that two octets write, the first one the higher.
pub open spec fn number16(s: Seq<u8>, at: int) -> int {
    s[at] * 0x100 + s[at + 1]
}

/// The number that four octets write, the first one the highest.
pub open spec fn number32(s: Seq<u8>, at: int) -> int {
    s[at] * 0x100_0000 + s[at + 1] * 0x1_0000 + s[at + 2] * 0x100 + s[at + 3]
}

/// Law: numbers are written with their highest octet first, negative ones as what they lack to
/// the next power of two.
pub proof fn law_numbers_are_read_back(a: u16, b: u32, c: i32)
    ensures
        be16(a).len() == 2,
        number16(be16(a), 0) == a,
        be32(b).len() == 4,
        number32(be32(b), 0) == b,
        be_i32(c).len() == 4,
        number32(be_i32(c), 0) == if c < 0 {
            c + 0x1_0000_0000
        } else {
            c as int
        },
{
}

/// Law: only ASCII capital letters are made small, each into the letter 32 places behind it.
pub proof fn law_letters_are_made_small(s: Seq<u8>, i: int)
    requires
        0 <= i < s.len(),
    ensures
        lower_octets(s).len() == s.len(),
        lower_octets(s)[i] == if 65 <= s[i] <= 90 {
            s[i] + 32
        } else {
            s[i] as int
        },
{
}

/// Law: labels are made small one by one.
pub proof fn law_labels_are_made_small(labels: Seq<Seq<u8>>, i: int)
    requires
        0 <= i < labels.len(),
    ensures
        lower_labels(labels).len() == labels.len(),
        lower_labels(labels)[i].len() == labels[i].len(),
        forall|k: int|
            0 <= k < labels[i].len() ==> #[trigger] lower_labels(labels)[i][k] == if 65
                <= labels[i][k] <= 90 {
                labels[i][k] + 32
            } else {
                labels[i][k] as int
            },
{
}

/// Law: on the wire a name is its labels, each behind its length, and a zero at the end.
pub proof fn law_name_on_the_wire(labels: Seq<Seq<u8>>)
    ensures
        labels.len() == 0 ==> name_wire(labels) == seq![0u8],
        labels.len() > 0 ==> name_wire(labels) == seq![labels[0].len() as u8] + labels[0]
            + name_wire(labels.drop_first()),
{
    if labels.len() == 0 {
        assert(name_wire(labels) =~= seq![0u8]);
    } else {
        assert(name_wire(labels) =~= seq![labels[0].len() as u8] + labels[0] + name_wire(
            labels.drop_first(),
        ));
    }
}

/// Law: a name can have any labels of 1 to 63 octets that take at most 255 octets on the wire.
pub proof fn law_valid_labels_fit_on_the_wire(labels: Seq<Seq<u8>>)
    ensures
        valid_labels(labels) <==> {
            &&& forall|i: int| 0 <= i < labels.len() ==> 1 <= (#[trigger] labels[i]).len() <= 63
            &&& name_wire(labels).len() <= 255
        },
{
    lemma_wire_size(labels);
}

proof fn lemma_wire_size(labels: Seq<Seq<u8>>)
    ensures
        name_wire(labels).len() == crate::name::labels_len(labels) + 1,
    decreases labels.len(),
{
    law_name_on_the_wire(labels);
    if labels.len() > 0 {
        lemma_wire_size(labels.drop_first());
    }
}

/// Law: a signature counts all labels of the owner, but not a star in front.
pub proof fn law_labels_are_counted_without_a_star(labels: Seq<Seq<u8>>)
    ensures
        labels.len() == 0 ==> counted_labels(labels) == 0,
        labels.len() > 0 ==> counted_labels(labels) == if labels[0].len() == 1 && labels[0][0]
            == 42 {
            labels.len() - 1
        } else {
            labels.len() as int
        },
{
    if labels.len() > 0 && labels[0].len() == 1 && labels[0][0] == 42 {
        assert(labels[0] =~= seq![42u8]);
    }
}

/// Law: the next name has a label with a zero octet in front, where it is not too long.
pub proof fn law_next_name_has_a_zero_label(name: NameView)
    requires
        valid_labels(name.labels),
    ensures
        black_lies_next(name).fqdn,
        name_wire(name.labels).len() + 2 <= 255 ==> {
            &&& black_lies_next(name).labels.len() == name.labels.len() + 1
            &&& black_lies_next(name).labels[0].len() == 1
            &&& black_lies_next(name).labels[0][0] == 0
            &&& black_lies_next(name).labels.skip(1) == name.labels
        },
        name_wire(name.labels).len() + 2 > 255 ==> black_lies_next(name).labels == name.labels,
{
    law_wire_form_is_short(name.labels);
    assert((seq![seq![0u8]] + name.labels).skip(1) =~= name.labels);
}

/// Law: each kind of data has its type number, and its octets on the wire: an address as it is, a
/// name in full, and a start of authority as two names and five numbers.
pub proof fn law_record_data_on_the_wire(
    address: Seq<u8>,
    name: NameView,
    soa: SoaView,
    code: u16,
    data: Seq<u8>,
)
    ensures
        type_of(RecordDataView::Aaaa(address)) == 28,
        rdata_wire(RecordDataView::Aaaa(address)) == address,
        type_of(RecordDataView::Ns(name)) == 2,
        rdata_wire(RecordDataView::Ns(name)) == name_wire(name.labels),
        type_of((RecordDataView::Unknown { code, data })) == code,
        rdata_wire((RecordDataView::Unknown { code, data })) == data,
        type_of(RecordDataView::Soa(soa)) == 6,
        ({
            let wire = rdata_wire(RecordDataView::Soa(soa));
            let names = name_wire(soa.mname.labels) + name_wire(soa.rname.labels);
            let n = names.len() as int;
            &&& wire.len() == n + 20
            &&& wire.take(n) == names
            &&& number32(wire, n) == soa.serial
            &&& number32(wire, n + 4) == soa.refresh as int % 0x1_0000_0000
            &&& number32(wire, n + 8) == soa.retry as int % 0x1_0000_0000
            &&& number32(wire, n + 12) == soa.expire as int % 0x1_0000_0000
            &&& number32(wire, n + 16) == soa.minimum
        }),
{
    let wire = rdata_wire(RecordDataView::Soa(soa));
    let names = name_wire(soa.mname.labels) + name_wire(soa.rname.labels);
    let n = names.len() as int;
    let serial = be32(soa.serial);
    let refresh = be_i32(soa.refresh);
    let retry = be_i32(soa.retry);
    let expire = be_i32(soa.expire);
    let minimum = be32(soa.minimum);
    law_numbers_are_read_back(0, soa.serial, soa.refresh);
    law_numbers_are_read_back(0, soa.minimum, soa.retry);
    law_numbers_are_read_back(0, soa.minimum, soa.expire);
    assert(wire =~= names + serial + refresh + retry + expire + minimum);
    assert(wire.take(n) =~= names);
    assert forall|k: int| 0 <= k < 4 implies {
        &&& #[trigger] serial[k] == wire[n + k]
        &&& refresh[k] == wire[n + 4 + k]
        &&& retry[k] == wire[n + 8 + k]
        &&& expire[k] == wire[n + 12 + k]
        &&& minimum[k] == wire[n + 16 + k]
    } by {}
    assert(number32(wire, n) == number32(serial, 0));
    assert(number32(wire, n + 4) == number32(refresh, 0));
    assert(number32(wire, n + 8) == number32(retry, 0));
    assert(number32(wire, n + 12) == number32(expire, 0));
    assert(number32(wire, n + 16) == number32(minimum, 0));
}

/// Law: a record is signed as its owner in small letters, its type, the class IN, the time to live
/// as published, the length of its data in 16 bits, and its data.
pub proof fn law_record_is_signed_in_canonical_form(record: RecordView, ttl: u32)
    ensures
        ({
            let wire = canonical_record(record, ttl);
            let owner = name_wire(lower_labels(record.name.labels));
            let data = rdata_wire(record.data);
            let n = owner.len() as int;
            &&& wire.len() == n + 10 + data.len()
            &&& wire.take(n) == owner
            &&& number16(wire, n) == type_of(record.data)
            &&& number16(wire, n + 2) == 1
            &&& number32(wire, n + 4) == ttl
            &&& number16(wire, n + 8) == data.len() % 0x1_0000
            &&& wire.skip(n + 10) == data
        }),
{
    let wire = canonical_record(record, ttl);
    let owner = name_wire(lower_labels(record.name.labels));
    let data = rdata_wire(record.data);
    let n = owner.len() as int;
    let kind = be16(type_of(record.data));
    let life = be32(ttl);
    let size = be16((data.len() % 0x1_0000) as u16);
    law_numbers_are_read_back(type_of(record.data), ttl, 0);
    law_numbers_are_read_back((data.len() % 0x1_0000) as u16, ttl, 0);
    assert(wire =~= owner + kind + be16(1) + life + size + data);
    assert(wire.take(n) =~= owner);
    assert(wire.skip(n + 10) =~= data);
    assert(wire[n] == kind[0] && wire[n + 1] == kind[1]);
    assert(wire[n + 2] == 0 && wire[n + 3] == 1);
    assert(wire[n + 4] == life[0] && wire[n + 5] == life[1] && wire[n + 6] == life[2] && wire[n + 7]
        == life[3]);
    assert(wire[n + 8] == size[0] && wire[n + 9] == size[1]);
}

/// Law: the records of a set are signed one behind the other.
pub proof fn law_records_are_signed_one_behind_the_other(records: Seq<Seq<u8>>, last: Seq<u8>)
    ensures
        concat(Seq::<Seq<u8>>::empty()).len() == 0,
        concat(records.push(last)) == concat(records) + last,
{
    assert(records.push(last).drop_last() =~= records);
}

/// Law: octets are ordered by the first place where they differ, and a beginning stands before
/// what it begins.
pub proof fn law_octets_are_ordered_by_the_first_difference(a: Seq<u8>, b: Seq<u8>, at: int)
    requires
        0 <= at <= a.len(),
        at <= b.len(),
        a.take(at) == b.take(at),
        at < a.len() && at < b.len() ==> a[at] != b[at],
    ensures
        octets_le(a, b) <==> (at == a.len() || (at < b.len() && a[at] < b[at])),
    decreases at,
{
    if at > 0 {
        assert(a.take(at)[0] == a[0] && b.take(at)[0] == b[0]);
        assert(a[0] == b[0]);
        let ra = a.drop_first();
        let rb = b.drop_first();
        assert(ra.take(at - 1) =~= a.take(at).drop_first());
        assert(rb.take(at - 1) =~= b.take(at).drop_first());
        assert(at < a.len() ==> ra[at - 1] == a[at]);
        assert(at < b.len() ==> rb[at - 1] == b[at]);
        law_octets_are_ordered_by_the_first_difference(ra, rb, at - 1);
        assert(octets_le(a, b) == octets_le(ra, rb));
    }
}

/// Law: of two items the one with the lower key comes first, whatever stands behind the keys.
pub proof fn law_lower_key_comes_first(a: (Seq<u8>, Seq<u8>), b: (Seq<u8>, Seq<u8>))
    requires
        a.0 != b.0,
    ensures
        keyed_le(a, b) <==> octets_le(a.0, b.0),
        !(keyed_le(a, b) && keyed_le(b, a)),
{
    if octets_le(a.0, b.0) && octets_le(b.0, a.0) {
        lemma_octets_le_antisymmetric(a.0, b.0);
    }
}

/// Law: the record of a key holds the flags 257, the protocol 3, the algorithm 13 and the key.
pub proof fn law_key_on_the_wire(public_key: Seq<u8>)
    ensures
        dnskey_wire(public_key).len() == 4 + public_key.len(),
        number16(dnskey_wire(public_key), 0) == 257,
        dnskey_wire(public_key)[2] == 3,
        dnskey_wire(public_key)[3] == 13,
        dnskey_wire(public_key).skip(4) == public_key,
{
    assert(dnskey_wire(public_key).skip(4) =~= public_key);
}

/// Law: the sum for a key tag takes the octets in pairs, the first of a pair as the higher one.
pub proof fn law_key_tag_sums_pairs(a: u8, b: u8, rest: Seq<u8>)
    ensures
        word_sum(Seq::<u8>::empty()) == 0,
        word_sum(seq![a]) == a * 0x100,
        word_sum(seq![a, b] + rest) == a * 0x100 + b + word_sum(rest),
    decreases rest.len(),
{
    let all = seq![a, b] + rest;
    assert(seq![a].drop_last() =~= Seq::<u8>::empty());
    assert(word_sum(Seq::<u8>::empty()) == 0);
    if rest.len() == 0 {
        assert(all =~= seq![a, b]);
        assert(all.drop_last() =~= seq![a]);
        assert(word_sum(seq![a]) == a * 0x100);
    } else {
        law_key_tag_sums_pairs(a, b, rest.drop_last());
        assert(all.drop_last() =~= seq![a, b] + rest.drop_last());
        assert(all.last() == rest.last());
    }
}

/// Law: the key tag is the sum in 32 bits, its upper half added to its lower half, in 16 bits.
pub proof fn law_key_tag_folds_the_sum(rdata: Seq<u8>, sum: u32)
    requires
        sum == word_sum(rdata) % 0x1_0000_0000,
    ensures
        key_tag_of(rdata) == (sum % 0x1_0000 + sum / 0x1_0000 % 0x1_0000) % 0x1_0000,
{
    let lower = (sum % 0x1_0000) as int;
    let upper = (sum / 0x1_0000) as int;
    assert(sum == upper * 0x1_0000 + lower);
    assert((sum + upper) % 0x1_0000 == (lower + upper) % 0x1_0000);
}

/// The value of a hexadecimal digit with capital letters.
pub open spec fn digit_value(c: char) -> int {
    if '0' <= c <= '9' {
        c as int - 48
    } else {
        c as int - 55
    }
}

/// Law: an octet is written as two hexadecimal digits with capital letters, the higher one first.
pub proof fn law_octets_in_hexadecimal(octets: Seq<u8>, i: int)
    requires
        0 <= i < octets.len(),
    ensures
        hex(octets).len() == 2 * octets.len(),
        digit_value(hex(octets)[2 * i]) * 16 + digit_value(hex(octets)[2 * i + 1]) == octets[i],
        '0' <= hex(octets)[2 * i] <= '9' || 'A' <= hex(octets)[2 * i] <= 'F',
        '0' <= hex(octets)[2 * i + 1] <= '9' || 'A' <= hex(octets)[2 * i + 1] <= 'F',
    decreases octets.len(),
{
    let front = octets.drop_last();
    lemma_hex_len(front);
    let last = octets.last();
    lemma_hex_digit((last / 16) as nat);
    lemma_hex_digit((last % 16) as nat);
    if i < front.len() {
        law_octets_in_hexadecimal(front, i);
    }
}

proof fn lemma_hex_len(octets: Seq<u8>)
    ensures
        hex(octets).len() == 2 * octets.len(),
    decreases octets.len(),
{
    if octets.len() > 0 {
        lemma_hex_len(octets.drop_last());
    }
}

proof fn lemma_hex_digit(n: nat)
    requires
        n < 16,
    ensures
        digit_value(hex_digit(n)) == n,
        '0' <= hex_digit(n) <= '9' || 'A' <= hex_digit(n) <= 'F',
{
}

/// Law: a delegation names the key tag, the algorithm 13, the digest type 2 and the SHA-256 digest
/// of the name in small letters and the record of the key.
pub proof fn law_delegation_digests_name_and_key(name: NameView, public_key: Seq<u8>)
    ensures
        ds_text(name, public_key) == decimal(key_tag_of(dnskey_wire(public_key)) as nat) + seq![
            ' ',
            '1',
            '3',
            ' ',
            '2',
            ' ',
        ] + hex(sha256(name_wire(lower_labels(name.labels)) + dnskey_wire(public_key))),
{
    reveal_strlit(" ");
    let tag = decimal(key_tag_of(dnskey_wire(public_key)) as nat);
    let digest = hex(sha256(name_wire(lower_labels(name.labels)) + dnskey_wire(public_key)));
    assert(decimal(1) =~= seq!['1']);
    assert(decimal(13) =~= seq!['1', '3']);
    assert(decimal(2) =~= seq!['2']);
    assert(ds_text(name, public_key) =~= tag + seq![' ', '1', '3', ' ', '2', ' '] + digest);
}

/// Law: the data of a signature record: the type that is signed, the algorithm, the labels of the
/// owner, the time to live, the end and the beginning of its validity, seven days after and a day
/// before it was made, the key tag and the name of the signer; behind them 64 octets that verify
/// under the key of the signer, for a message of all that and the records of the set, each once
/// and sorted by their data.
pub proof fn law_signature_on_the_wire(
    rdata: Seq<u8>,
    key: SignerView,
    rrset: Seq<RecordView>,
    sorted: Seq<RecordView>,
    signer: NameView,
    ttl: u32,
    now: u32,
)
    requires
        rrset.len() > 0,
        valid_labels(rrset[0].name.labels),
        is_rrsig(rdata, key, rrset, signer, ttl, now),
        is_rrset(rrset),
        sorted.to_multiset() == rrset.to_multiset(),
        sorted_by_data(sorted),
    ensures
        ({
            let name = name_wire(signer.labels);
            let n = name.len() as int;
            &&& rdata.len() == 18 + n + 64
            &&& number16(rdata, 0) == type_of(rrset[0].data)
            &&& rdata[2] == 13
            &&& rdata[3] == counted_labels(rrset[0].name.labels)
            &&& number32(rdata, 4) == ttl
            &&& number32(rdata, 8) == (now + 7 * 86400) % 0x1_0000_0000
            &&& number32(rdata, 12) == (now - 86400) % 0x1_0000_0000
            &&& number16(rdata, 16) == key_tag_of(
                seq![1u8, 1u8, 3u8, 13u8] + key.public_key,
            )
            &&& rdata.subrange(18, 18 + n) == name
            &&& ecdsa_verifies(
                key.verifying_key,
                rdata.take(18 + n) + concat(canonical_records(sorted, ttl)),
                rdata.skip(18 + n),
            )
        }),
{
    let tag = key_tag_of(dnskey_wire(key.public_key));
    assert(dnskey_wire(key.public_key) =~= seq![1u8, 1u8, 3u8, 13u8] + key.public_key);
    let head = rrsig_head(rrset[0], signer, ttl, now, tag);
    let name = name_wire(signer.labels);
    let n = name.len() as int;
    let kind = be16(type_of(rrset[0].data));
    let life = be32(ttl);
    let ends = be32(crate::dnssec::expiration(now));
    let begins = be32(crate::dnssec::inception(now));
    let tags = be16(tag);
    law_numbers_are_read_back(type_of(rrset[0].data), ttl, 0);
    law_numbers_are_read_back(tag, crate::dnssec::expiration(now), 0);
    law_numbers_are_read_back(tag, crate::dnssec::inception(now), 0);
    crate::name::lemma_label_count(rrset[0].name.labels);
    let two = seq![13u8, counted_labels(rrset[0].name.labels) as u8];
    assert(head =~= kind + two + life + ends + begins + tags + name);
    assert(head.len() == 18 + n);
    assert forall|k: int| 0 <= k < 18 + n implies #[trigger] rdata[k] == head[k] by {
        assert(rdata.take(18 + n)[k] == head[k]);
    }
    assert(rdata.subrange(18, 18 + n) =~= name);
    assert(head[0] == kind[0] && head[1] == kind[1]);
    assert(head[2] == two[0] && head[3] == two[1]);
    assert(head[4] == life[0] && head[5] == life[1] && head[6] == life[2] && head[7] == life[3]);
    assert(head[8] == ends[0] && head[9] == ends[1] && head[10] == ends[2] && head[11] == ends[3]);
    assert(head[12] == begins[0] && head[13] == begins[1] && head[14] == begins[2] && head[15]
        == begins[3]);
    assert(head[16] == tags[0] && head[17] == tags[1]);
    law_signed_message_is_sorted_by_data(head, rrset, sorted, ttl);
}

/// Law: a signature was made at a time that the system clock showed.
pub proof fn law_signature_is_made_at_the_time_of_the_clock(
    rdata: Seq<u8>,
    key: SignerView,
    rrset: Seq<RecordView>,
    signer: NameView,
    ttl: u32,
) -> (now: u32)
    requires
        is_some_rrsig(rdata, key, rrset, signer, ttl),
    ensures
        time_was_read(now),
        is_rrsig(rdata, key, rrset, signer, ttl, now),
{
    choose|now: u32| #[trigger] time_was_read(now) && is_rrsig(rdata, key, rrset, signer, ttl, now)
}

/// Law: a set with records goes without a signature only where the clock was read and showed a
/// time before 1970, or the key was asked, at a time that the clock showed, to sign this very set
/// and made no signature.
pub proof fn law_signature_is_missing_only_after_a_failure(
    key: SignerView,
    rrset: Seq<RecordView>,
    signer: NameView,
    ttl: u32,
)
    requires
        rrset.len() > 0,
        could_not_sign(key, rrset, signer, ttl),
    ensures
        clock_was_early() || exists|now: u32| #[trigger]
            time_was_read(now) && signing_failed(
                key.verifying_key,
                message_at(key, rrset, signer, ttl, now),
            ),
{
}

/// Law: what is read of a request is its number, its wish for recursion, its extension and the
/// first of its questions, each as it stands there.
pub proof fn law_request_is_read_as_it_stands(parts: RequestParts)
    ensures
        request_read(parts).id == parts.0,
        request_read(parts).recursion_desired == parts.1,
        request_read(parts).edns is Some <==> parts.2 is Some,
        parts.2 matches Some(e) ==> {
            &&& request_read(parts).edns->0.dnssec_ok == e.0
            &&& request_read(parts).edns->0.max_payload == e.1
        },
        request_read(parts).question is Some <==> parts.3@.len() > 0,
        parts.3@.len() > 0 ==> {
            let q = request_read(parts).question->0;
            &&& q.name.labels.len() == parts.3@[0].0@.len()
            &&& forall|i: int|
                0 <= i < q.name.labels.len() ==> #[trigger] q.name.labels[i] == parts.3@[0].0@[i]@
            &&& q.name.fqdn == parts.3@[0].1
            &&& q.qtype == parts.3@[0].2
            &&& q.qclass == parts.3@[0].3
        },
{
}

} // verus!
