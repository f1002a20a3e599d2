//! Resource records of class IN and their data on the wire.
use vstd::prelude::*;

use crate::bytes::append;
use crate::bytes::be32;
use crate::bytes::be_i32;
use crate::bytes::push_be32;
use crate::bytes::push_be_i32;
use crate::name::name_to_wire;
use crate::name::name_wire;
use crate::name::DomainName;
use crate::name::NameView;

verus! {

/// The type number of name server records.
pub const TYPE_NS: u16 = 2;

/// The type number of start of authority records.
pub const TYPE_SOA: u16 = 6;

/// The type number of IPv6 address records.
pub const TYPE_AAAA: u16 = 28;

/// The type number of signature records.
pub const TYPE_RRSIG: u16 = 46;

/// The type number of records that prove an absence.
pub const TYPE_NSEC: u16 = 47;

/// The type number of zone key records.
pub const TYPE_DNSKEY: u16 = 48;

/// The class number of the Internet.
pub const CLASS_IN: u16 = 1;

/// The data of a start of authority record.
pub struct Soa {
    pub mname: DomainName,
    pub rname: DomainName,
    pub serial: u32,
    pub refresh: i32,
    pub retry: i32,
    pub expire: i32,
    pub minimum: u32,
}

/// What the data of a start of authority record holds.
#[verifier::ext_equal]
pub struct SoaView {
    pub mname: NameView,
    pub rname: NameView,
    pub serial: u32,
    pub refresh: i32,
    pub retry: i32,
    pub expire: i32,
    pub minimum: u32,
}

impl View for Soa {
    type V = SoaView;

    open spec fn view(&self) -> SoaView {
        SoaView {
            mname: self.mname@,
            rname: self.rname@,
            serial: self.serial,
            refresh: self.refresh,
            retry: self.retry,
            expire: self.expire,
            minimum: self.minimum,
        }
    }
}

/// The data of a record: an IPv6 address, a name server, a start of authority, or the octets of
/// any other type.
pub enum RecordData {
    Aaaa([u8; 16]),
    Ns(DomainName),
    Soa(Soa),
    Unknown { code: u16, data: Vec<u8> },
}

/// What the data of a record holds.
#[verifier::ext_equal]
pub enum RecordDataView {
    Aaaa(Seq<u8>),
    Ns(NameView),
    Soa(SoaView),
    Unknown { code: u16, data: Seq<u8> },
}

impl View for RecordData {
    type V = RecordDataView;

    open spec fn view(&self) -> RecordDataView {
        match self {
            RecordData::Aaaa(octets) => RecordDataView::Aaaa(octets@),
            RecordData::Ns(name) => RecordDataView::Ns(name@),
            RecordData::Soa(soa) => RecordDataView::Soa(soa@),
            RecordData::Unknown { code, data } => RecordDataView::Unknown {
                code: *code,
                data: data@,
            },
        }
    }
}

/// A resource record of class IN.
pub struct Record {
    pub name: DomainName,
    pub ttl: u32,
    pub data: RecordData,
}

/// What a record holds.
#[verifier::ext_equal]
pub struct RecordView {
    pub name: NameView,
    pub ttl: u32,
    pub data: RecordDataView,
}

impl View for Record {
    type V = RecordView;

    open spec fn view(&self) -> RecordView {
        RecordView { name: self.name@, ttl: self.ttl, data: self.data@ }
    }
}

/// What each of the records holds.
pub open spec fn record_views(records: Seq<Record>) -> Seq<RecordView> {
    records.map_values(|r: Record| r@)
}

/// The type number that belongs to the data of a record.
pub open spec fn type_of(data: RecordDataView) -> u16 {
    match data {
        RecordDataView::Aaaa(_) => TYPE_AAAA,
        RecordDataView::Ns(_) => TYPE_NS,
        RecordDataView::Soa(_) => TYPE_SOA,
        RecordDataView::Unknown { code, .. } => code,
    }
}

/// The data of a record on the wire, names written out in full.
pub open spec fn rdata_wire(data: RecordDataView) -> Seq<u8> {
    match data {
        RecordDataView::Aaaa(octets) => octets,
        RecordDataView::Ns(name) => name_wire(name.labels),
        RecordDataView::Soa(soa) => {
            name_wire(soa.mname.labels) + name_wire(soa.rname.labels) + be32(soa.serial) + be_i32(
                soa.refresh,
            ) + be_i32(soa.retry) + be_i32(soa.expire) + be32(soa.minimum)
        },
        RecordDataView::Unknown { data, .. } => data,
    }
}

impl Clone for Soa {
    fn clone(&self) -> (r: Self)
        ensures
            r@ == self@,
    {
        Soa {
            mname: self.mname.clone(),
            rname: self.rname.clone(),
            serial: self.serial,
            refresh: self.refresh,
            retry: self.retry,
            expire: self.expire,
            minimum: self.minimum,
        }
    }
}

impl Clone for RecordData {
    fn clone(&self) -> (r: Self)
        ensures
            r@ == self@,
    {
        match self {
            RecordData::Aaaa(octets) => RecordData::Aaaa(*octets),
            RecordData::Ns(name) => RecordData::Ns(name.clone()),
            RecordData::Soa(soa) => RecordData::Soa(soa.clone()),
            RecordData::Unknown { code, data } => RecordData::Unknown {
                code: *code,
                data: vstd::slice::slice_to_vec(data.as_slice()),
            },
        }
    }
}

impl Clone for Record {
    fn clone(&self) -> (r: Self)
        ensures
            r@ == self@,
    {
        Record { name: self.name.clone(), ttl: self.ttl, data: self.data.clone() }
    }
}

impl Record {
    /// The type number of the record.
    pub fn record_type(&self) -> (r: u16)
        ensures
            r == type_of(self@.data),
    {
        match &self.data {
            RecordData::Aaaa(_) => TYPE_AAAA,
            RecordData::Ns(_) => TYPE_NS,
            RecordData::Soa(_) => TYPE_SOA,
            RecordData::Unknown { code, .. } => *code,
        }
    }
}

/// Writes the data of a record as it stands on the wire, names in full.
pub fn rdata_to_wire(record: &Record) -> (r: Vec<u8>)
    ensures
        r@ == rdata_wire(record@.data),
{
    match &record.data {
        RecordData::Aaaa(octets) => vstd::slice::slice_to_vec(octets.as_slice()),
        RecordData::Ns(name) => name_to_wire(name),
        RecordData::Soa(soa) => {
            let mut wire: Vec<u8> = name_to_wire(&soa.mname);
            append(&mut wire, name_to_wire(&soa.rname).as_slice());
            push_be32(&mut wire, soa.serial);
            push_be_i32(&mut wire, soa.refresh);
            push_be_i32(&mut wire, soa.retry);
            push_be_i32(&mut wire, soa.expire);
            push_be32(&mut wire, soa.minimum);
            wire
        },
        RecordData::Unknown { data, .. } => vstd::slice::slice_to_vec(data.as_slice()),
    }
}

} // verus!
