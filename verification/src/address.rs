//! Addresses of clients and of servers.
use hickory_proto::rr;
use vstd::prelude::*;

use crate::text::chars_of;
use crate::text::decimal;
use crate::text::first_place;
use crate::text::lemma_first_place_is;
use crate::text::push_decimal;
use crate::text::push_text;
use crate::text::string_of;
use crate::text::trim;
use crate::text::trimmed;

verus! {

/// An address of a client.
#[derive(Clone, Copy, Debug)]
pub enum IpAddr {
    V4([u8; 4]),
    V6([u8; 16]),
}

/// The address of the client of a request.
#[derive(Clone, Copy, Debug)]
pub struct ClientIp(pub IpAddr);

/// The text that `hickory_proto::rr::rdata::AAAA` writes for an IPv6 address.
pub uninterp spec fn ipv6_text(octets: Seq<u8>) -> Seq<char>;

/// Calls the `Display` of `hickory_proto::rr::rdata::AAAA`, which writes the address in the form
/// that is usual for IPv6. The text depends on the octets alone.
#[verifier::external_body]
fn write_ipv6(octets: [u8; 16]) -> (r: String)
    ensures
        r@ == ipv6_text(octets@),
{
    rr::rdata::AAAA(octets.into()).to_string()
}

/// An IPv6 address as text.
pub fn ipv6_to_text(octets: [u8; 16]) -> (r: String)
    ensures
        r@ == ipv6_text(octets@),
{
    write_ipv6(octets)
}

/// The address of a client that can get a name: IPv6 alone.
pub fn ipv6_only(ip: IpAddr) -> (r: Result<[u8; 16], String>)
    ensures
        match ip {
            IpAddr::V6(octets) => r == Ok::<[u8; 16], String>(octets),
            IpAddr::V4(_) => r matches Err(message) && message@ == "IPv4 not supported"@,
        },
{
    match ip {
        IpAddr::V6(octets) => Ok(octets),
        IpAddr::V4(_) => Err("IPv4 not supported".to_string()),
    }
}

/// The first address in a header that lists those that a request was forwarded for: what stands
/// before the first comma, without white space around it.
pub open spec fn first_forwarded(header: Seq<char>) -> Seq<char> {
    trimmed(header.take(first_place(header, ',')))
}

/// Takes the first address out of a header that lists those that a request was forwarded for.
pub fn forwarded_for(header: &str) -> (r: String)
    ensures
        r@ == first_forwarded(header@),
{
    let chars: Vec<char> = chars_of(header);
    let mut end: usize = 0;
    while end < chars.len() && chars[end] != ','
        invariant
            end <= chars@.len(),
            forall|i: int| 0 <= i < end ==> chars@[i] != ',',
        decreases chars.len() - end,
    {
        end += 1;
    }
    proof {
        lemma_first_place_is(chars@, ',', end as int);
        assert(chars@.subrange(0, end as int) =~= chars@.take(end as int));
    }
    string_of(trim(vstd::slice::slice_subrange(chars.as_slice(), 0, end)).as_slice())
}

/// The client of a request: the address that it was forwarded for, if one could be read, or else
/// the address that it came from.
pub fn client_ip(forwarded: Option<IpAddr>, remote: Option<IpAddr>) -> (r: Option<ClientIp>)
    ensures
        match (forwarded, remote) {
            (Some(ip), _) => r == Some(ClientIp(ip)),
            (None, Some(ip)) => r == Some(ClientIp(ip)),
            (None, None) => r is None,
        },
{
    match (forwarded, remote) {
        (Some(ip), _) => Some(ClientIp(ip)),
        (None, Some(ip)) => Some(ClientIp(ip)),
        (None, None) => None,
    }
}

/// The text that was set, or a default.
pub open spec fn set_or(text: Option<String>, default_text: Seq<char>) -> Seq<char> {
    match text {
        Some(t) => t@,
        None => default_text,
    }
}

fn push_set_or(out: &mut String, text: &Option<String>, default_text: &str)
    ensures
        final(out)@ == old(out)@ + set_or(*text, default_text@),
{
    match text {
        Some(t) => {
            push_text(out, t.as_str());
        },
        None => {
            push_text(out, default_text);
        },
    }
}

/// Where the DNS server listens: on the address that is set, or on all.
pub fn dns_listen_address(address: &Option<String>, port: u16) -> (r: String)
    ensures
        r@ == set_or(*address, "[::]"@) + ":"@ + decimal(port as nat),
{
    let mut r = String::new();
    push_set_or(&mut r, address, "[::]");
    push_text(&mut r, ":");
    push_decimal(&mut r, port as u64);
    assert(r@ =~= set_or(*address, "[::]"@) + ":"@ + decimal(port as nat));
    r
}

/// Where the plain TCP server listens: on the IPv6 address that is set, or on all.
pub fn net_listen_address(address: &Option<String>, port: u16) -> (r: String)
    ensures
        r@ == "["@ + set_or(*address, "::"@) + "]:"@ + decimal(port as nat),
{
    let mut r = String::new();
    push_text(&mut r, "[");
    push_set_or(&mut r, address, "::");
    push_text(&mut r, "]:");
    push_decimal(&mut r, port as u64);
    assert(r@ =~= "["@ + set_or(*address, "::"@) + "]:"@ + decimal(port as nat));
    r
}

/// The address on which the HTTP server listens: the one that is set, or all of IPv4.
pub fn http_listen_address(address: &Option<String>) -> (r: String)
    ensures
        r@ == set_or(*address, "0.0.0.0"@),
{
    let mut r = String::new();
    push_set_or(&mut r, address, "0.0.0.0");
    assert(r@ =~= set_or(*address, "0.0.0.0"@));
    r
}

} // verus!
