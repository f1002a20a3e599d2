//! The HTTP server: what a client is told about its name, as a page and as JSON.
use vstd::prelude::*;

use crate::address::ipv6_text;
use crate::address::ipv6_to_text;
use crate::clock::duration_secs;
use crate::clock::humanize_duration;
use crate::clock::humanized;
use crate::clock::rfc3339_text;
use crate::key_file::optional_text;
use crate::store::Store;
use crate::task::ResolvedEntry;
use crate::task::ResolvedView;
use crate::task::StoreError;

verus! {

/// What a client is told about its name.
#[derive(Debug)]
pub struct DnsInfo {
    pub has_dns: bool,
    pub ttl: String,
    pub dns_name: Option<String>,
    pub expires: Option<String>,
    pub address: String,
}

/// What a client is told about its name.
#[verifier::ext_equal]
pub struct InfoView {
    pub has_dns: bool,
    pub ttl: Seq<char>,
    pub dns_name: Option<Seq<char>>,
    pub expires: Option<Seq<char>>,
    pub address: Seq<char>,
}

impl View for DnsInfo {
    type V = InfoView;

    open spec fn view(&self) -> InfoView {
        InfoView {
            has_dns: self.has_dns,
            ttl: self.ttl@,
            dns_name: optional_text(self.dns_name),
            expires: optional_text(self.expires),
            address: self.address@,
        }
    }
}

/// The answer to a client that speaks JSON.
#[derive(Debug)]
pub struct ApiResponse {
    pub ok: bool,
    pub err: Option<String>,
    pub res: Option<DnsInfo>,
}

/// What is told of a client at `address` that has a name, or has none.
pub open spec fn info_of(ttl_secs: nat, address: Seq<u8>, found: Option<ResolvedView>) -> InfoView {
    InfoView {
        has_dns: found is Some,
        ttl: humanized(ttl_secs),
        dns_name: match found {
            Some(r) => Some(r.dns_name),
            None => None,
        },
        expires: match found {
            Some(r) => Some(rfc3339_text(r.entry.expires)),
            None => None,
        },
        address: ipv6_text(address),
    }
}

fn info(store: &Store, ipv6: [u8; 16], found: Option<ResolvedEntry>) -> (r: DnsInfo)
    ensures
        r@ == info_of(
            duration_secs(store@.ttl) as nat,
            ipv6@,
            match found {
                Some(entry) => Some(entry@),
                None => None,
            },
        ),
{
    let ttl: String = humanize_duration(store.ttl());
    let address: String = ipv6_to_text(ipv6);
    match found {
        Some(entry) => DnsInfo {
            has_dns: true,
            ttl,
            dns_name: Some(entry.dns_name),
            expires: Some(entry.entry.expires.to_rfc3339()),
            address,
        },
        None => DnsInfo { has_dns: false, ttl, dns_name: None, expires: None, address },
    }
}

/// What a client is told about the name that was looked up for its address.
pub fn get_info(
    store: &Store,
    ipv6: [u8; 16],
    found: Result<Option<ResolvedEntry>, StoreError>,
) -> (r: Result<DnsInfo, String>)
    ensures
        match found {
            Ok(Some(entry)) => r matches Ok(i) && i@ == info_of(
                duration_secs(store@.ttl) as nat,
                ipv6@,
                Some(entry@),
            ),
            Ok(None) => r matches Ok(i) && i@ == info_of(
                duration_secs(store@.ttl) as nat,
                ipv6@,
                None,
            ),
            Err(e) => r matches Err(message) && message@ == e.text(),
        },
{
    match found {
        Ok(found) => Ok(info(store, ipv6, found)),
        Err(e) => Err(e.message()),
    }
}

/// What a client is told about the name that was added for its address.
pub fn register_dns(
    store: &Store,
    ipv6: [u8; 16],
    added: Result<ResolvedEntry, StoreError>,
) -> (r: Result<DnsInfo, String>)
    ensures
        match added {
            Ok(entry) => r matches Ok(i) && i@ == info_of(
                duration_secs(store@.ttl) as nat,
                ipv6@,
                Some(entry@),
            ),
            Err(e) => r matches Err(message) && message@ == e.text(),
        },
{
    match added {
        Ok(entry) => Ok(info(store, ipv6, Some(entry))),
        Err(e) => Err(e.message()),
    }
}

/// The answer in JSON: what the client is told, or the message about what went wrong.
pub fn api_response(result: Result<DnsInfo, String>) -> (r: ApiResponse)
    ensures
        match result {
            Ok(info) => r == (ApiResponse { ok: true, err: None, res: Some(info) }),
            Err(message) => r == (ApiResponse { ok: false, err: Some(message), res: None }),
        },
{
    match result {
        Ok(info) => ApiResponse { ok: true, err: None, res: Some(info) },
        Err(message) => ApiResponse { ok: false, err: Some(message), res: None },
    }
}

/// A value on the page.
pub enum Value {
    Flag(bool),
    Text(String),
}

/// A value on the page.
#[verifier::ext_equal]
pub enum ValueView {
    Flag(bool),
    Text(Seq<char>),
}

impl View for Value {
    type V = ValueView;

    open spec fn view(&self) -> ValueView {
        match self {
            Value::Flag(flag) => ValueView::Flag(*flag),
            Value::Text(text) => ValueView::Text(text@),
        }
    }
}

/// Named values.
pub open spec fn fields(v: Seq<(&'static str, Value)>) -> Seq<(Seq<char>, ValueView)> {
    v.map_values(|f: (&'static str, Value)| (f.0@, f.1@))
}

/// The values on the page, and those in its part about the name of the client.
pub struct Page {
    pub top: Vec<(&'static str, Value)>,
    pub res: Option<Vec<(&'static str, Value)>>,
}

/// The values at the top of the page.
pub open spec fn top_fields(result: Result<InfoView, Seq<char>>) -> Seq<(Seq<char>, ValueView)> {
    match result {
        Ok(_) => seq![("OK"@, ValueView::Flag(true))],
        Err(message) => seq![
            ("OK"@, ValueView::Flag(false)),
            ("Err"@, ValueView::Text(message)),
        ],
    }
}

/// The values about the name of the client: those that are known.
pub open spec fn res_fields(info: InfoView) -> Seq<(Seq<char>, ValueView)> {
    let always = seq![
        ("HasDNS"@, ValueView::Flag(info.has_dns)),
        ("TTL"@, ValueView::Text(info.ttl)),
        ("Address"@, ValueView::Text(info.address)),
    ];
    let named = match info.dns_name {
        Some(name) => always.push(("DNSName"@, ValueView::Text(name))),
        None => always,
    };
    match info.expires {
        Some(expires) => named.push(("Expires"@, ValueView::Text(expires))),
        None => named,
    }
}

fn push_field(v: &mut Vec<(&'static str, Value)>, name: &'static str, value: Value)
    ensures
        fields(final(v)@) == fields(old(v)@).push((name@, value@)),
{
    let ghost before = v@;
    v.push((name, value));
    assert(fields(v@) =~= fields(before).push((name@, value@)));
}

/// The values for the page: what the client is told, or the message about what went wrong.
pub fn page(result: &Result<DnsInfo, String>) -> (r: Page)
    ensures
        match result {
            Ok(info) => {
                &&& fields(r.top@) == top_fields(Ok(info@))
                &&& r.res matches Some(res) && fields(res@) == res_fields(info@)
            },
            Err(message) => {
                &&& fields(r.top@) == top_fields(Err(message@))
                &&& r.res is None
            },
        },
{
    let mut top: Vec<(&'static str, Value)> = Vec::new();
    assert(fields(top@) =~= seq![]);
    match result {
        Ok(info) => {
            push_field(&mut top, "OK", Value::Flag(true));
            assert(fields(top@) =~= top_fields(Ok(info@)));
            let mut res: Vec<(&'static str, Value)> = Vec::new();
            assert(fields(res@) =~= seq![]);
            push_field(&mut res, "HasDNS", Value::Flag(info.has_dns));
            push_field(&mut res, "TTL", Value::Text(info.ttl.clone()));
            push_field(&mut res, "Address", Value::Text(info.address.clone()));
            if let Some(name) = &info.dns_name {
                push_field(&mut res, "DNSName", Value::Text(name.clone()));
            }
            if let Some(expires) = &info.expires {
                push_field(&mut res, "Expires", Value::Text(expires.clone()));
            }
            assert(fields(res@) =~= res_fields(info@));
            Page { top, res: Some(res) }
        },
        Err(message) => {
            push_field(&mut top, "OK", Value::Flag(false));
            push_field(&mut top, "Err", Value::Text(message.clone()));
            assert(fields(top@) =~= top_fields(Err(message@)));
            Page { top, res: None }
        },
    }
}

} // verus!
