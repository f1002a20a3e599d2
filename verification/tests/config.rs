use std::time::Duration;

use give_me_dns::clock::humanize_duration;
use give_me_dns::config::default_dns_port;
use give_me_dns::config::default_http_port;
use give_me_dns::config::default_id_len;
use give_me_dns::config::default_net_port;
use give_me_dns::config::default_ttl;
use give_me_dns::config::parse_duration;
use give_me_dns::config::RandomProviderConfig;
use give_me_dns::config::WordlistProviderConfig;

#[test]
fn test_parse_duration() {
    assert_eq!(parse_duration("48h").unwrap(), Duration::from_secs(48 * 3600));
    assert_eq!(parse_duration("1h30m").unwrap(), Duration::from_secs(90 * 60));
    assert_eq!(parse_duration("1h30m45s").unwrap(), Duration::from_secs(3600 + 30 * 60 + 45));
}

#[test]
fn durations_without_units_count_nothing() {
    assert_eq!(parse_duration("").unwrap(), Duration::from_secs(0));
    assert_eq!(parse_duration("15").unwrap(), Duration::from_secs(0));
    assert_eq!(parse_duration("2m15").unwrap(), Duration::from_secs(120));
}

#[test]
fn units_may_stand_in_any_order_and_again() {
    assert_eq!(parse_duration("5s2h5s").unwrap(), Duration::from_secs(7210));
    assert_eq!(parse_duration("007m").unwrap(), Duration::from_secs(420));
}

#[test]
fn a_unit_needs_a_number() {
    assert_eq!(parse_duration("h").unwrap_err(), "Invalid number in duration: h");
    assert_eq!(parse_duration("1hm").unwrap_err(), "Invalid number in duration: 1hm");
    assert_eq!(parse_duration("-1h").unwrap_err(), "Invalid number in duration: -1h");
    assert_eq!(
        parse_duration("18446744073709551616s").unwrap_err(),
        "Invalid number in duration: 18446744073709551616s"
    );
}

#[test]
fn other_units_are_unknown() {
    assert_eq!(parse_duration("3d").unwrap_err(), "Unknown duration unit: d");
    assert_eq!(parse_duration("1h 2m").unwrap_err(), "Invalid number in duration: 1h 2m");
    assert_eq!(parse_duration("1\u{e9}").unwrap_err(), "Unknown duration unit: \u{e9}");
}

#[test]
fn seconds_wrap() {
    assert_eq!(
        parse_duration("18446744073709551615s").unwrap(),
        Duration::from_secs(u64::MAX)
    );
    assert_eq!(parse_duration("18446744073709551615s2s").unwrap(), Duration::from_secs(1));
}

#[test]
fn durations_are_written_in_hours_minutes_and_seconds() {
    assert_eq!(humanize_duration(Duration::from_secs(0)), "0s");
    assert_eq!(humanize_duration(Duration::from_secs(59)), "59s");
    assert_eq!(humanize_duration(Duration::from_secs(60)), "1m0s");
    assert_eq!(humanize_duration(Duration::from_secs(3599)), "59m59s");
    assert_eq!(humanize_duration(Duration::from_secs(3600)), "1h0m0s");
    assert_eq!(humanize_duration(Duration::from_secs(3605)), "1h0m0s");
    assert_eq!(humanize_duration(Duration::from_secs(3660)), "1h1m0s");
    assert_eq!(humanize_duration(Duration::from_secs(48 * 3600)), "48h0m0s");
    assert_eq!(humanize_duration(Duration::from_secs(5445)), "1h30m45s");
    assert_eq!(humanize_duration(Duration::from_millis(1999)), "1s");
}

#[test]
fn written_durations_are_read_again() {
    for secs in [0u64, 1, 59, 60, 61, 3599, 3600, 3660, 3661, 7325, 172800] {
        let d = Duration::from_secs(secs);
        assert_eq!(parse_duration(&humanize_duration(d)).unwrap(), d);
    }
    assert_eq!(
        parse_duration(&humanize_duration(Duration::from_secs(3605))).unwrap(),
        Duration::from_secs(3600)
    );
}

#[test]
fn defaults() {
    assert_eq!(default_ttl(), Duration::from_secs(172800));
    assert_eq!(default_dns_port(), 5354);
    assert_eq!(default_net_port(), 9999);
    assert_eq!(default_http_port(), 8053);
    assert_eq!(default_id_len(), 3);
    assert_eq!(WordlistProviderConfig::default(), WordlistProviderConfig { enable: false });
    assert_eq!(
        RandomProviderConfig::default(),
        RandomProviderConfig { enable: false, id_len: 0 }
    );
}
