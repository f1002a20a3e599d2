//! The records that a zone is made of besides addresses, and record sets with their signatures.
use vstd::prelude::*;

use crate::bytes::append;
use crate::message::octets_view;
use crate::name::name_to_wire;
use crate::name::name_wire;
use crate::name::DomainName;
use crate::name::NameView;
use crate::record::record_views;
use crate::record::Record;
use crate::record::RecordData;
use crate::record::RecordDataView;
use crate::record::RecordView;
use crate::record::TYPE_DNSKEY;
use crate::record::TYPE_NSEC;
use crate::record::TYPE_RRSIG;

verus! {

/// The time to live of the records that the zone has of itself.
pub const ZONE_TTL: u32 = 3600;

/// `value` where the type is among the types, and zero where it is not.
pub open spec fn type_bit(types: Seq<u16>, number: int, value: int) -> int {
    if types.contains(number as u16) {
        value
    } else {
        0
    }
}

/// The octet of the type bitmap for the eight types from `8 * at` on, the first in the highest
/// bit.
pub open spec fn bitmap_octet(types: Seq<u16>, at: int) -> u8 {
    (type_bit(types, 8 * at, 128) + type_bit(types, 8 * at + 1, 64) + type_bit(
        types,
        8 * at + 2,
        32,
    ) + type_bit(types, 8 * at + 3, 16) + type_bit(types, 8 * at + 4, 8) + type_bit(
        types,
        8 * at + 5,
        4,
    ) + type_bit(types, 8 * at + 6, 2) + type_bit(types, 8 * at + 7, 1)) as u8
}

/// The bitmap for the types below 256.
pub open spec fn full_bitmap(types: Seq<u16>) -> Seq<u8> {
    Seq::new(32, |at: int| bitmap_octet(types, at))
}

/// The octets without the zeros at their end, but at least one octet.
pub open spec fn without_zero_tail(octets: Seq<u8>) -> Seq<u8>
    decreases octets.len(),
{
    if octets.len() > 1 && octets.last() == 0 {
        without_zero_tail(octets.drop_last())
    } else {
        octets
    }
}

/// The types as they stand in a record that proves an absence: window zero, the length of the
/// bitmap, and the bitmap.
pub open spec fn type_window(types: Seq<u16>) -> Seq<u8> {
    let bitmap = without_zero_tail(full_bitmap(types));
    seq![0u8, bitmap.len() as u8] + bitmap
}

/// The record that says which types `name` has, and that no name stands between it and
/// `next_name`.
pub open spec fn nsec_record(name: NameView, next_name: NameView, types: Seq<u16>) -> RecordView {
    RecordView {
        name,
        ttl: ZONE_TTL,
        data: RecordDataView::Unknown {
            code: TYPE_NSEC,
            data: name_wire(next_name.labels) + type_window(types),
        },
    }
}

/// The record of a signature.
pub open spec fn rrsig_record(name: NameView, ttl: u32, rdata: Seq<u8>) -> RecordView {
    RecordView { name, ttl, data: RecordDataView::Unknown { code: TYPE_RRSIG, data: rdata } }
}

/// The record that publishes a key.
pub open spec fn dnskey_record(name: NameView, rdata: Seq<u8>) -> RecordView {
    RecordView {
        name,
        ttl: ZONE_TTL,
        data: RecordDataView::Unknown { code: TYPE_DNSKEY, data: rdata },
    }
}

fn bit_of(types: &[u16], number: u16, value: u8) -> (r: u8)
    ensures
        r == type_bit(types@, number as int, value as int),
{
    let mut i: usize = 0;
    while i < types.len()
        invariant
            i <= types@.len(),
            forall|k: int| 0 <= k < i ==> types@[k] != number,
        decreases types.len() - i,
    {
        if types[i] == number {
            return value;
        }
        i += 1;
    }
    0
}

fn octet_of(types: &[u16], at: u16) -> (r: u8)
    requires
        at < 32,
    ensures
        r == bitmap_octet(types@, at as int),
{
    let first: u16 = 8 * at;
    let b0: u8 = bit_of(types, first, 128);
    let b1: u8 = bit_of(types, first + 1, 64);
    let b2: u8 = bit_of(types, first + 2, 32);
    let b3: u8 = bit_of(types, first + 3, 16);
    let b4: u8 = bit_of(types, first + 4, 8);
    let b5: u8 = bit_of(types, first + 5, 4);
    let b6: u8 = bit_of(types, first + 6, 2);
    let b7: u8 = bit_of(types, first + 7, 1);
    b0 + b1 + b2 + b3 + b4 + b5 + b6 + b7
}

/// The window and bitmap for the types, as far as they are below 256.
pub fn types_to_wire(types: &[u16]) -> (r: Vec<u8>)
    ensures
        r@ == type_window(types@),
{
    let mut bitmap: Vec<u8> = Vec::new();
    let ghost full = full_bitmap(types@);
    let mut at: u16 = 0;
    while at < 32
        invariant
            at <= 32,
            full == full_bitmap(types@),
            bitmap@ == full.take(at as int),
        decreases 32 - at,
    {
        bitmap.push(octet_of(types, at));
        at += 1;
        assert(bitmap@ =~= full.take(at as int));
    }
    assert(bitmap@ =~= full);
    while bitmap.len() > 1 && bitmap[bitmap.len() - 1] == 0
        invariant
            1 <= bitmap@.len() <= 32,
            without_zero_tail(bitmap@) == without_zero_tail(full),
        decreases bitmap.len(),
    {
        let ghost before = bitmap@;
        let _ = bitmap.pop();
        assert(bitmap@ =~= before.drop_last());
    }
    let mut r: Vec<u8> = Vec::new();
    r.push(0);
    r.push(bitmap.len() as u8);
    append(&mut r, bitmap.as_slice());
    assert(r@ =~= type_window(types@));
    r
}

/// Makes the record that says which types `name` has, and that no name stands between it and
/// `next_name`.
pub fn make_nsec(name: &DomainName, next_name: &DomainName, types: &[u16]) -> (r: Record)
    ensures
        r@ == nsec_record(name@, next_name@, types@),
{
    let mut rdata: Vec<u8> = name_to_wire(next_name);
    append(&mut rdata, types_to_wire(types).as_slice());
    Record {
        name: name.clone(),
        ttl: ZONE_TTL,
        data: RecordData::Unknown { code: TYPE_NSEC, data: rdata },
    }
}

/// Makes the record of a signature.
pub fn make_rrsig(name: &DomainName, ttl: u32, rrsig_rdata: Vec<u8>) -> (r: Record)
    ensures
        r@ == rrsig_record(name@, ttl, rrsig_rdata@),
{
    Record {
        name: name.clone(),
        ttl,
        data: RecordData::Unknown { code: TYPE_RRSIG, data: rrsig_rdata },
    }
}

/// Records that are signed together, the name that the signature gets, and their time to live.
pub struct Rrset {
    pub records: Vec<Record>,
    pub owner: DomainName,
    pub ttl: u32,
}

/// What a record set holds.
#[verifier::ext_equal]
pub struct RrsetView {
    pub records: Seq<RecordView>,
    pub owner: NameView,
    pub ttl: u32,
}

impl View for Rrset {
    type V = RrsetView;

    open spec fn view(&self) -> RrsetView {
        RrsetView { records: record_views(self.records@), owner: self.owner@, ttl: self.ttl }
    }
}

/// What each of the record sets holds.
pub open spec fn rrset_views(rrsets: Seq<Rrset>) -> Seq<RrsetView> {
    rrsets.map_values(|s: Rrset| s@)
}

/// What each of the signatures holds, where there is one.
pub open spec fn signature_views(signatures: Seq<Option<Vec<u8>>>) -> Seq<Option<Seq<u8>>> {
    signatures.map_values(|s: Option<Vec<u8>>| octets_view(s))
}

/// The records of a set, and behind them its signature where there is one.
pub open spec fn with_signature(rrset: RrsetView, signature: Option<Seq<u8>>) -> Seq<RecordView> {
    match signature {
        Some(rdata) => rrset.records.push(rrsig_record(rrset.owner, rrset.ttl, rdata)),
        None => rrset.records,
    }
}

/// The records of all sets, each set with its signature.
pub open spec fn section(rrsets: Seq<RrsetView>, signatures: Seq<Option<Seq<u8>>>) -> Seq<
    RecordView,
>
    decreases rrsets.len(),
{
    if rrsets.len() == 0 {
        seq![]
    } else {
        section(rrsets.drop_last(), signatures.drop_last()) + with_signature(
            rrsets.last(),
            signatures.last(),
        )
    }
}

/// Puts the records of all sets one after the other, each set with its signature.
pub fn make_section(rrsets: Vec<Rrset>, signatures: Vec<Option<Vec<u8>>>) -> (r: Vec<Record>)
    requires
        rrsets@.len() == signatures@.len(),
    ensures
        record_views(r@) == section(rrset_views(rrsets@), signature_views(signatures@)),
{
    let ghost sets = rrset_views(rrsets@);
    let ghost sigs = signature_views(signatures@);
    let mut r: Vec<Record> = Vec::new();
    let mut i: usize = 0;
    assert(record_views(r@) =~= section(sets.take(0), sigs.take(0)));
    while i < rrsets.len()
        invariant
            i <= rrsets@.len(),
            rrsets@.len() == signatures@.len(),
            sets == rrset_views(rrsets@),
            sigs == signature_views(signatures@),
            record_views(r@) == section(sets.take(i as int), sigs.take(i as int)),
        decreases rrsets.len() - i,
    {
        let rrset: &Rrset = &rrsets[i];
        let ghost before = record_views(r@);
        let ghost all = record_views(rrset.records@);
        let mut j: usize = 0;
        assert(record_views(r@) =~= before + all.take(0));
        while j < rrset.records.len()
            invariant
                j <= rrset.records@.len(),
                all == record_views(rrset.records@),
                record_views(r@) == before + all.take(j as int),
            decreases rrset.records.len() - j,
        {
            let ghost so_far = r@;
            let record: Record = rrset.records[j].clone();
            r.push(record);
            assert(record_views(r@) =~= record_views(so_far).push(record@));
            j += 1;
            assert(record_views(r@) =~= before + all.take(j as int));
        }
        assert(all.take(j as int) =~= all);
        if let Some(rdata) = &signatures[i] {
            let ghost so_far = r@;
            let record: Record = make_rrsig(
                &rrset.owner,
                rrset.ttl,
                vstd::slice::slice_to_vec(rdata.as_slice()),
            );
            r.push(record);
            assert(record_views(r@) =~= record_views(so_far).push(record@));
        }
        proof {
            let next_sets = sets.take(i + 1);
            let next_sigs = sigs.take(i + 1);
            assert(next_sets.drop_last() =~= sets.take(i as int));
            assert(next_sigs.drop_last() =~= sigs.take(i as int));
            assert(next_sets.last() == rrset@);
            assert(next_sigs.last() == octets_view(signatures@[i as int]));
            assert(record_views(r@) =~= section(next_sets, next_sigs));
        }
        i += 1;
    }
    assert(sets.take(i as int) =~= sets);
    assert(sigs.take(i as int) =~= sigs);
    r
}

/// The value of the bit for a type within its octet.
pub open spec fn bit_value(number: int) -> int {
    let place = number % 8;
    if place == 0 {
        128
    } else if place == 1 {
        64
    } else if place == 2 {
        32
    } else if place == 3 {
        16
    } else if place == 4 {
        8
    } else if place == 5 {
        4
    } else if place == 6 {
        2
    } else {
        1
    }
}

/// The bit for a type is set in a bitmap.
pub open spec fn is_listed(bitmap: Seq<u8>, number: int) -> bool {
    number / 8 < bitmap.len() && (bitmap[number / 8] as int / bit_value(number)) % 2 == 1
}

proof fn lemma_zero_tail(octets: Seq<u8>, number: int)
    requires
        number >= 0,
    ensures
        is_listed(without_zero_tail(octets), number) == is_listed(octets, number),
    decreases octets.len(),
{
    if octets.len() > 1 && octets.last() == 0 {
        lemma_zero_tail(octets.drop_last(), number);
        if number / 8 == octets.len() - 1 {
            assert(octets[number / 8] == 0);
        }
    }
}

/// The bits of an octet can be told apart.
proof fn lemma_bits(b0: u8, b1: u8, b2: u8, b3: u8, b4: u8, b5: u8, b6: u8, b7: u8)
    requires
        b0 <= 1 && b1 <= 1 && b2 <= 1 && b3 <= 1 && b4 <= 1 && b5 <= 1 && b6 <= 1 && b7 <= 1,
    ensures
        ({
            let d = b0 * 128 + b1 * 64 + b2 * 32 + b3 * 16 + b4 * 8 + b5 * 4 + b6 * 2 + b7;
            &&& (d / 128) % 2 == b0
            &&& (d / 64) % 2 == b1
            &&& (d / 32) % 2 == b2
            &&& (d / 16) % 2 == b3
            &&& (d / 8) % 2 == b4
            &&& (d / 4) % 2 == b5
            &&& (d / 2) % 2 == b6
            &&& (d / 1) % 2 == b7
        }),
{
    let d = b0 * 128 + b1 * 64 + b2 * 32 + b3 * 16 + b4 * 8 + b5 * 4 + b6 * 2 + b7;
    let r6 = b0 * 64 + b1 * 32 + b2 * 16 + b3 * 8 + b4 * 4 + b5 * 2 + b6;
    let r5 = b0 * 32 + b1 * 16 + b2 * 8 + b3 * 4 + b4 * 2 + b5;
    let r4 = b0 * 16 + b1 * 8 + b2 * 4 + b3 * 2 + b4;
    let r3 = b0 * 8 + b1 * 4 + b2 * 2 + b3;
    let r2 = b0 * 4 + b1 * 2 + b2;
    let r1 = b0 * 2 + b1;
    assert(d / 2 == r6 && d / 4 == r5 && d / 8 == r4 && d / 16 == r3);
    assert(d / 32 == r2 && d / 64 == r1 && d / 128 == b0);
}

/// One where the type is among the types, and zero where it is not.
spec fn one_bit(types: Seq<u16>, number: int) -> u8 {
    if types.contains(number as u16) {
        1
    } else {
        0
    }
}

/// Law: a record that proves an absence lists exactly the types that it is made for, as far as
/// they are below 256.
pub proof fn law_bitmap_lists_exactly_the_types(types: Seq<u16>, number: u16)
    requires
        number < 256,
    ensures
        is_listed(without_zero_tail(full_bitmap(types)), number as int) <==> types.contains(number),
{
    lemma_zero_tail(full_bitmap(types), number as int);
    let at = number as int / 8;
    let place = number as int % 8;
    let first = 8 * at;
    lemma_bits(
        one_bit(types, first),
        one_bit(types, first + 1),
        one_bit(types, first + 2),
        one_bit(types, first + 3),
        one_bit(types, first + 4),
        one_bit(types, first + 5),
        one_bit(types, first + 6),
        one_bit(types, first + 7),
    );
    let octet = bitmap_octet(types, at) as int;
    assert(full_bitmap(types)[at] == octet);
    assert(number == first + place);
    assert((octet / bit_value(number as int)) % 2 == one_bit(types, first + place));
}

} // verus!
