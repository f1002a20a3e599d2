use give_me_dns::name::name_to_wire;
use give_me_dns::name::name_to_wire_lowercase;
use give_me_dns::name::DomainName;

fn name(text: &str) -> DomainName {
    DomainName::from_ascii(text).unwrap()
}

fn labels(n: &DomainName) -> Vec<Vec<u8>> {
    n.labels().clone()
}

#[test]
fn names_are_read_from_text() {
    assert_eq!(labels(&name("abc.6dns.me")), [b"abc".to_vec(), b"6dns".to_vec(), b"me".to_vec()]);
    assert!(!name("abc.6dns.me").is_fqdn());
    assert!(name("6dns.me.").is_fqdn());
    assert!(DomainName::from_ascii("a..b").is_none());
    assert!(DomainName::from_ascii(&"x".repeat(64)).is_none());
    assert!(DomainName::from_ascii(&"x".repeat(63)).is_some());
}

#[test]
fn names_are_written_as_text() {
    assert_eq!(name("Abc.6dns.me.").text(), "Abc.6dns.me.");
    assert_eq!(name("Abc.6dns.me.").to_lowercase().text(), "abc.6dns.me.");
    assert_eq!(name("a_b-c.me.").text(), "a_b-c.me.");
    assert_eq!(name("a_b-c.me").text(), "a_b-c.me");
    let long = [vec![97u8; 63], vec![98; 63], vec![99; 63], vec![100; 61]];
    let long = DomainName::from_labels(long.to_vec(), true).unwrap();
    assert_eq!(long.text().len(), 254);
    assert_eq!(labels(&name(&long.text())), labels(&long));
    let odd = DomainName::from_labels(vec![b"a.b".to_vec(), vec![0, 255]], true).unwrap();
    assert_eq!(odd.text(), "a\\.b.\\000\\377.");
}

#[test]
fn labels_have_limits() {
    assert!(DomainName::from_labels(vec![Vec::new()], true).is_none());
    assert!(DomainName::from_labels(vec![vec![1; 64]], true).is_none());
    assert!(DomainName::from_labels(Vec::new(), true).is_some());
    let of_length = |last: usize| vec![vec![1; 63], vec![1; 63], vec![1; 63], vec![1; last]];
    assert!(DomainName::from_labels(of_length(61), true).is_some());
    assert!(DomainName::from_labels(of_length(62), true).is_none());
}

#[test]
fn wire_form_is_labels_behind_their_length() {
    assert_eq!(name_to_wire(&name("Ab.c")), b"\x02Ab\x01c\x00");
    assert_eq!(name_to_wire_lowercase(&name("Ab.C.")), b"\x02ab\x01c\x00");
    assert_eq!(name_to_wire(&DomainName::from_labels(Vec::new(), true).unwrap()), b"\x00");
}

#[test]
fn zones_hold_what_ends_in_them() {
    let zone = name("6dns.me");
    assert!(zone.zone_of(&name("6dns.me.")));
    assert!(zone.zone_of(&name("a.b.6DNS.Me.")));
    assert!(!zone.zone_of(&name("x6dns.me.")));
    assert!(!zone.zone_of(&name("me.")));
}

#[test]
fn a_leading_star_is_not_counted() {
    assert_eq!(name("a.6dns.me").num_labels(), 3);
    let star = DomainName::from_labels(vec![b"*".to_vec(), b"me".to_vec()], true).unwrap();
    assert_eq!(star.num_labels(), 1);
}

#[test]
fn the_next_name_begins_with_a_zero_label() {
    let next = name("a.me.").make_black_lies_next_name();
    assert_eq!(labels(&next), [vec![0u8], b"a".to_vec(), b"me".to_vec()]);
    assert!(next.is_fqdn());
    let long =
        DomainName::from_labels(vec![vec![97; 63], vec![97; 63], vec![97; 63], vec![97; 60]], true)
            .unwrap();
    assert_eq!(labels(&long.make_black_lies_next_name()), labels(&long));
    let shorter =
        DomainName::from_labels(vec![vec![97; 63], vec![97; 63], vec![97; 63], vec![97; 59]], true)
            .unwrap();
    assert_eq!(shorter.make_black_lies_next_name().labels().len(), 5);
}
