use std::sync::Arc;
use std::time::Duration;

use give_me_dns::address::client_ip;
use give_me_dns::address::forwarded_for;
use give_me_dns::address::http_listen_address;
use give_me_dns::address::ipv6_only;
use give_me_dns::address::ipv6_to_text;
use give_me_dns::address::ClientIp;
use give_me_dns::address::IpAddr;
use give_me_dns::clock::Timestamp;
use give_me_dns::config::NetConfig;
use give_me_dns::http::api_response;
use give_me_dns::http::get_info;
use give_me_dns::http::page;
use give_me_dns::http::register_dns;
use give_me_dns::http::Value;
use give_me_dns::idprov::ProviderManager;
use give_me_dns::net::NetServer;
use give_me_dns::net::Service;
use give_me_dns::store::Store;
use give_me_dns::task::Action;
use give_me_dns::task::Entry;
use give_me_dns::task::ResolvedEntry;
use give_me_dns::task::StoreError;

fn ip(last: u8) -> [u8; 16] {
    [0x20, 1, 0xd, 0xb8, 0, 0, 0, 0, 0, 0, 0, 0, 0, 0, 0, last]
}

fn store() -> Arc<Store> {
    let (store, _, _) = Store::open(
        "6dns.me".to_string(),
        Duration::from_secs(5445),
        Arc::new(ProviderManager::new(Vec::new())),
    );
    Arc::new(store)
}

fn entry() -> ResolvedEntry {
    ResolvedEntry {
        id: "apple".to_string(),
        dns_name: "apple.6dns.me".to_string(),
        entry: Entry { expires: Timestamp::new(1431648000, 0).unwrap(), value: ip(7) },
    }
}

fn show(fields: &[(&'static str, Value)]) -> Vec<String> {
    fields
        .iter()
        .map(|(name, value)| match value {
            Value::Flag(flag) => format!("{}={}", name, flag),
            Value::Text(text) => format!("{}={}", name, text),
        })
        .collect()
}

#[test]
fn addresses_are_written() {
    assert_eq!(ipv6_to_text(ip(7)), "2001:db8::7");
    assert_eq!(ipv6_to_text([0; 16]), "::");
}

#[test]
fn only_ipv6_gets_names() {
    assert_eq!(ipv6_only(IpAddr::V6(ip(1))), Ok(ip(1)));
    assert_eq!(ipv6_only(IpAddr::V4([127, 0, 0, 1])), Err("IPv4 not supported".to_string()));
}

#[test]
fn the_first_forwarded_address_counts() {
    assert_eq!(forwarded_for(" ::1 , 10.0.0.1"), "::1");
    assert_eq!(forwarded_for("10.0.0.1"), "10.0.0.1");
    assert_eq!(forwarded_for(",::1"), "");
    assert_eq!(forwarded_for(""), "");
}

#[test]
fn the_client_is_the_forwarded_or_the_remote_one() {
    let v4 = Some(IpAddr::V4([1, 2, 3, 4]));
    let v6 = Some(IpAddr::V6(ip(1)));
    assert!(matches!(client_ip(v6, v4), Some(ClientIp(IpAddr::V6(_)))));
    assert!(matches!(client_ip(None, v4), Some(ClientIp(IpAddr::V4([1, 2, 3, 4])))));
    assert!(client_ip(None, None).is_none());
}

#[test]
fn listen_addresses() {
    assert_eq!(http_listen_address(&None), "0.0.0.0");
    assert_eq!(http_listen_address(&Some("::".to_string())), "::");
    let net = |address: Option<&str>| {
        let config = NetConfig { port: 9999, address: address.map(|a| a.to_string()) };
        NetServer::new(config, store()).listen_address()
    };
    assert_eq!(net(None), "[::]:9999");
    assert_eq!(net(Some("::1")), "[::1]:9999");
}

#[test]
fn a_plain_client_is_served() {
    let server = NetServer::new(NetConfig { port: 1, address: None }, store());
    match server.handle_connection(IpAddr::V6(ip(7))) {
        Service::Register(_, Action::GetId(asked)) => assert_eq!(asked, ip(7)),
        _ => panic!("not registered"),
    }
    match server.handle_connection(IpAddr::V4([1, 2, 3, 4])) {
        Service::Reply(text) => assert_eq!(text, "IPv4 not supported\n"),
        _ => panic!("registered"),
    }
    assert_eq!(
        server.reply(&Ok(entry())),
        "Address: 2001:db8::7\nDNS Name: apple.6dns.me\nValid for 1h30m45s\n\
         Expires 2015-05-15T00:00:00+00:00\n"
    );
    assert_eq!(
        server.reply(&Err(StoreError::NoFreeId)),
        "Error: Failed to generate unique ID after 100 attempts\n"
    );
}

#[test]
fn a_web_client_is_told_its_name() {
    let store = store();
    let info = get_info(&store, ip(7), Ok(Some(entry()))).unwrap();
    assert!(info.has_dns);
    assert_eq!(info.ttl, "1h30m45s");
    assert_eq!(info.dns_name.as_deref(), Some("apple.6dns.me"));
    assert_eq!(info.expires.as_deref(), Some("2015-05-15T00:00:00+00:00"));
    assert_eq!(info.address, "2001:db8::7");
    let none = get_info(&store, ip(8), Ok(None)).unwrap();
    assert!(!none.has_dns && none.dns_name.is_none() && none.expires.is_none());
    assert_eq!((none.ttl.as_str(), none.address.as_str()), ("1h30m45s", "2001:db8::8"));
    let failed = get_info(&store, ip(8), Err(StoreError::Database("broken".to_string())));
    assert_eq!(failed.unwrap_err(), "broken");
}

#[test]
fn a_web_client_registers() {
    let store = store();
    let info = register_dns(&store, ip(7), Ok(entry())).unwrap();
    assert!(info.has_dns);
    assert_eq!(info.dns_name.as_deref(), Some("apple.6dns.me"));
    let failed = register_dns(&store, ip(7), Err(StoreError::TtlTooLong("long".to_string())));
    assert_eq!(failed.unwrap_err(), "long");
}

#[test]
fn the_api_wraps_results() {
    let store = store();
    let ok = api_response(register_dns(&store, ip(7), Ok(entry())));
    assert!(ok.ok && ok.err.is_none() && ok.res.is_some());
    let failed = api_response(Err("broken".to_string()));
    assert!(!failed.ok && failed.res.is_none());
    assert_eq!(failed.err.as_deref(), Some("broken"));
}

#[test]
fn the_page_shows_results() {
    let store = store();
    let shown = page(&get_info(&store, ip(7), Ok(Some(entry()))));
    assert_eq!(show(&shown.top), ["OK=true"]);
    assert_eq!(
        show(&shown.res.unwrap()),
        [
            "HasDNS=true",
            "TTL=1h30m45s",
            "Address=2001:db8::7",
            "DNSName=apple.6dns.me",
            "Expires=2015-05-15T00:00:00+00:00",
        ]
    );
    let none = page(&get_info(&store, ip(8), Ok(None)));
    assert_eq!(
        show(&none.res.unwrap()),
        ["HasDNS=false", "TTL=1h30m45s", "Address=2001:db8::8"]
    );
    let failed = page(&Err("broken".to_string()));
    assert_eq!(show(&failed.top), ["OK=false", "Err=broken"]);
    assert!(failed.res.is_none());
}
