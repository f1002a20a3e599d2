use base64::engine::general_purpose::STANDARD;
use base64::Engine;
use give_me_dns::crypto::SigningKey;
use give_me_dns::dnssec::message_to_sign;
use give_me_dns::dnssec::rrsig_data;
use give_me_dns::dnssec::signing_time;
use give_me_dns::dnssec::DnssecSigner;
use give_me_dns::dnssec::SignError;
use give_me_dns::key_file::export_key;
use give_me_dns::key_file::exported_signer;
use give_me_dns::key_file::generate_dnssec_key;
use give_me_dns::key_file::key_fields;
use give_me_dns::key_file::load_dnssec_key;
use give_me_dns::key_file::loaded_signer;
use give_me_dns::key_file::read_key;
use give_me_dns::key_file::signer_with_export;
use give_me_dns::key_file::KeyError;
use give_me_dns::name::DomainName;
use give_me_dns::record::Record;
use give_me_dns::record::RecordData;
use ring::signature::UnparsedPublicKey;
use ring::signature::ECDSA_P256_SHA256_FIXED;

fn name(text: &str) -> DomainName {
    DomainName::from_ascii(text).unwrap()
}

fn ns(owner: &str, server: &str) -> Record {
    Record { name: name(owner), ttl: 3600, data: RecordData::Ns(name(server)) }
}

fn new_signer() -> (DnssecSigner, String) {
    generate_dnssec_key().ok().unwrap()
}

fn verifies(signer: &DnssecSigner, message: &[u8], signature: &[u8]) -> bool {
    let mut point = vec![4u8];
    point.extend_from_slice(signer.public_key());
    UnparsedPublicKey::new(&ECDSA_P256_SHA256_FIXED, point).verify(message, signature).is_ok()
}

#[test]
fn the_key_tag_of_a_known_key() {
    let key = "AQOeiiR0GOMYkDshWoSKz9XzfwJr1AYtsmx3TGkJaNXVbfi/2pHm822aJ5iI9BMzNXxeYCmZDRD99WYwYqUS\
               djMmmAphXdvxegXd/M5+X7OrzKBaMbCVdFLUUh6DhweJBjEVv5f2wwjM9XzcnOf+EPbtG9DMBmADjFDc2w/r\
               ljwvFw==";
    let mut rdata = vec![1u8, 0, 3, 5];
    rdata.extend_from_slice(&STANDARD.decode(key).unwrap());
    assert_eq!(DnssecSigner::calculate_key_tag(&rdata), 60485);
    assert_eq!(DnssecSigner::calculate_key_tag(&[]), 0);
    assert_eq!(DnssecSigner::calculate_key_tag(&[1]), 256);
    assert_eq!(DnssecSigner::calculate_key_tag(&[255, 255, 0, 1]), 1);
}

#[test]
fn the_key_record_holds_flags_protocol_algorithm_and_key() {
    let (signer, _) = new_signer();
    assert_eq!(signer.public_key().len(), 64);
    assert_eq!(&signer.dnskey_rdata()[..4], &[1, 1, 3, 13]);
    assert_eq!(&signer.dnskey_rdata()[4..], signer.public_key());
    assert_eq!(signer.key_tag(), DnssecSigner::calculate_key_tag(signer.dnskey_rdata()));
}

#[test]
fn the_delegation_digests_name_and_key() {
    let (signer, _) = new_signer();
    let mut data = b"\x046dns\x02me\x00".to_vec();
    data.extend_from_slice(signer.dnskey_rdata());
    let digest = ring::digest::digest(&ring::digest::SHA256, &data);
    let hex: Vec<String> = digest.as_ref().iter().map(|b| format!("{:02X}", b)).collect();
    let expected = format!("{} 13 2 {}", signer.key_tag(), hex.concat());
    assert_eq!(signer.get_ds_record(&name("6DNS.me")), expected);
}

#[test]
fn a_signature_covers_the_record_set() {
    let (signer, _) = new_signer();
    let rrset = [ns("6dns.me.", "ns2.6dns.me."), ns("6dns.me.", "ns1.6dns.me.")];
    let zone = name("6dns.me");
    let rdata = signer.sign_rrset_at(&rrset, &zone, 3600, 1_000_000).ok().unwrap();
    let tag = signer.key_tag().to_be_bytes();
    let mut head = vec![0u8, 2, 13, 2, 0, 0, 14, 16];
    head.extend_from_slice(&1_604_800u32.to_be_bytes());
    head.extend_from_slice(&913_600u32.to_be_bytes());
    head.extend_from_slice(&tag);
    head.extend_from_slice(b"\x046dns\x02me\x00");
    assert_eq!(&rdata[..head.len()], &head[..]);
    assert_eq!(rdata.len(), head.len() + 64);
    let mut message = head.clone();
    for server in [b"\x03ns1", b"\x03ns2"] {
        message.extend_from_slice(b"\x046dns\x02me\x00\x00\x02\x00\x01\x00\x00\x0e\x10\x00\x0d");
        message.extend_from_slice(server);
        message.extend_from_slice(b"\x046dns\x02me\x00");
    }
    assert_eq!(message_to_sign(&head, &rrset, 3600), message);
    assert!(verifies(&signer, &message, &rdata[head.len()..]));
    assert!(!verifies(&signer, &head, &rdata[head.len()..]));
}

#[test]
fn times_of_a_signature_wrap() {
    let (signer, _) = new_signer();
    let rrset = [ns("6dns.me.", "ns1.6dns.me.")];
    let early = signer.sign_rrset_at(&rrset, &name("6dns.me"), 1, 0).ok().unwrap();
    assert_eq!(&early[8..12], &604_800u32.to_be_bytes());
    assert_eq!(&early[12..16], &0u32.wrapping_sub(86_400).to_be_bytes());
    let late = signer.sign_rrset_at(&rrset, &name("6dns.me"), 1, u32::MAX).ok().unwrap();
    assert_eq!(&late[8..12], &604_799u32.to_be_bytes());
}

#[test]
fn the_order_of_records_makes_no_difference() {
    let a = [ns("6dns.me.", "b.me."), ns("6dns.me.", "a.me."), ns("6DNS.me.", "a.me.")];
    let b = [ns("6DNS.me.", "a.me."), ns("6dns.me.", "a.me."), ns("6dns.me.", "b.me.")];
    assert_eq!(message_to_sign(&[1], &a, 5), message_to_sign(&[1], &b, 5));
}

#[test]
fn records_are_sorted_by_their_data() {
    let set = [ns("6dns.me.", "b."), ns("6dns.me.", "a.a.")];
    let message = message_to_sign(&[], &set, 5);
    let mut expected = b"\x046dns\x02me\x00\x00\x02\x00\x01\x00\x00\x00\x05\x00\x05".to_vec();
    expected.extend_from_slice(b"\x01a\x01a\x00");
    expected.extend_from_slice(b"\x046dns\x02me\x00\x00\x02\x00\x01\x00\x00\x00\x05\x00\x03");
    expected.extend_from_slice(b"\x01b\x00");
    assert_eq!(message, expected);
}

#[test]
fn a_signature_needs_the_time_and_stands_behind_the_head() {
    let (signer, _) = new_signer();
    let set = [ns("6dns.me.", "ns1.6dns.me.")];
    let zone = name("6dns.me");
    let late = signer.sign_rrset_when(&set, &zone, 60, Some((5 << 32) + 1_000_000)).unwrap();
    assert_eq!(&late[8..12], &1_604_800u32.to_be_bytes());
    let head = signer.rrsig_prefix(&set[0], &zone, 60, 1_000_000);
    assert_eq!(&late[..late.len() - 64], &head[..]);
    assert_eq!(signer.sign_rrset_when(&set, &zone, 60, None), Err(SignError::Clock));
    assert_eq!(signer.sign_rrset_when(&[], &zone, 60, None), Err(SignError::EmptyRrset));
    assert_eq!(signing_time(Some((1 << 32) + 7)), Ok(7));
    assert_eq!(signing_time(None), Err(SignError::Clock));
    assert_eq!(rrsig_data(vec![1, 2], Some(vec![3])), Ok(vec![1, 2, 3]));
    assert_eq!(rrsig_data(vec![1, 2], None), Err(SignError::Signing));
    assert_eq!(SignError::EmptyRrset.message(), "Cannot sign empty RRset");
    assert_eq!(SignError::Signing.message(), "Signing failed");
    let before = std::time::UNIX_EPOCH.duration_since(std::time::SystemTime::now()).unwrap_err();
    assert_eq!(SignError::Clock.message(), before.to_string());
}

#[test]
fn a_key_that_was_not_read_is_not_exported() {
    assert!(matches!(
        exported_signer(vec![1], None).err().unwrap(),
        KeyError::GeneratedKey
    ));
    assert!(matches!(
        signer_with_export(vec![1, 2, 3]).err().unwrap(),
        KeyError::GeneratedKey
    ));
    let (signer, export) = new_signer();
    let (document, _) = read_key(&export).ok().unwrap();
    let (again, same) = signer_with_export(document).ok().unwrap();
    assert_eq!(again.public_key(), signer.public_key());
    assert_eq!(same, export);
}

#[test]
fn a_signing_key_signs_under_its_public_key() {
    let (_, export) = new_signer();
    let (document, public) = read_key(&export).ok().unwrap();
    let key = SigningKey::from_pkcs8(&document).unwrap();
    assert_eq!(key.public_key().len(), 65);
    assert_eq!(&key.public_key()[1..], &public[..]);
    let signature = key.sign(b"text").unwrap();
    assert_eq!(signature.len(), 64);
    let check = UnparsedPublicKey::new(&ECDSA_P256_SHA256_FIXED, key.public_key());
    assert!(check.verify(b"text", &signature).is_ok());
    assert!(check.verify(b"other", &signature).is_err());
    assert!(SigningKey::from_pkcs8(b"no key").is_none());
    let raw = SigningKey::from_parts(&document[36..68], &key.public_key()).unwrap();
    assert_eq!(raw.public_key(), key.public_key());
    assert!(SigningKey::from_parts(&[1; 32], &key.public_key()).is_none());
    let signer = loaded_signer(vec![7], Some(raw), KeyError::RawKey).ok().unwrap();
    assert_eq!(signer.public_key(), [7]);
    let refused = loaded_signer(vec![7], None, KeyError::RawKey).err().unwrap();
    assert!(matches!(refused, KeyError::RawKey));
}

#[test]
fn an_empty_set_is_not_signed() {
    let (signer, _) = new_signer();
    assert_eq!(signer.sign_rrset(&[], &name("6dns.me"), 1).unwrap_err(), SignError::EmptyRrset);
    assert_eq!(
        signer.sign_rrset_at(&[], &name("6dns.me"), 1, 5).unwrap_err(),
        SignError::EmptyRrset
    );
}

#[test]
fn the_clock_sets_the_times_of_a_signature() {
    let (signer, _) = new_signer();
    let rrset = [ns("a.6dns.me.", "ns1.6dns.me.")];
    let rdata = signer.sign_rrset(&rrset, &name("6dns.me"), 60).ok().unwrap();
    let number = |at: usize| {
        u32::from_be_bytes([rdata[at], rdata[at + 1], rdata[at + 2], rdata[at + 3]])
    };
    assert_eq!(number(8) - number(12), 604_800 + 86_400);
    assert!(number(8) > 1_700_000_000);
    assert_eq!(rdata[3], 3);
    let message = message_to_sign(&rdata[..rdata.len() - 64], &rrset, 60);
    assert!(verifies(&signer, &message, &rdata[rdata.len() - 64..]));
}

#[test]
fn an_exported_key_is_loaded_again() {
    let (signer, export) = new_signer();
    let loaded = load_dnssec_key(&export).ok().unwrap();
    assert_eq!(loaded.public_key(), signer.public_key());
    let rrset = [ns("6dns.me.", "ns1.6dns.me.")];
    let rdata = loaded.sign_rrset_at(&rrset, &name("6dns.me"), 60, 9).ok().unwrap();
    let message = message_to_sign(&rdata[..rdata.len() - 64], &rrset, 60);
    assert!(verifies(&signer, &message, &rdata[rdata.len() - 64..]));
    let text = String::from_utf8(STANDARD.decode(&export).unwrap()).unwrap();
    let lines: Vec<&str> = text.lines().collect();
    assert_eq!(lines.len(), 4);
    assert_eq!(lines[0], "Private-key-format: v1.3");
    assert_eq!(lines[1], "Algorithm: 13 (ECDSAP256SHA256)");
    assert!(lines[2].starts_with("PrivateKey: "));
    assert_eq!(lines[3], format!("PublicKey: {}", STANDARD.encode(signer.public_key())));
}

#[test]
fn a_raw_key_is_loaded() {
    let (signer, export) = new_signer();
    let (document, public) = read_key(&export).ok().unwrap();
    assert_eq!(document.len(), 138);
    assert_eq!(public, signer.public_key());
    assert_eq!(&document[document.len() - 64..], signer.public_key());
    let raw = export_key(&document[36..68], &public);
    let loaded = load_dnssec_key(&raw).ok().unwrap();
    assert_eq!(loaded.key_tag(), signer.key_tag());
    let rrset = [ns("6dns.me.", "ns1.6dns.me.")];
    let rdata = loaded.sign_rrset_at(&rrset, &name("6dns.me"), 60, 9).ok().unwrap();
    let message = message_to_sign(&rdata[..rdata.len() - 64], &rrset, 60);
    assert!(verifies(&signer, &message, &rdata[rdata.len() - 64..]));
}

#[test]
fn key_fields_are_the_last_of_their_name() {
    let text = "PrivateKey: a\r\nPublicKey:PublicKey:  b \nother\nPrivateKey:\tc d ";
    assert_eq!(key_fields(text), (Some("c d".to_string()), Some("b".to_string())));
    assert_eq!(key_fields(" PrivateKey: a\nprivatekey: b"), (None, None));
}

#[test]
fn what_is_wrong_with_a_key() {
    let load = |text: &str| load_dnssec_key(&STANDARD.encode(text)).err().unwrap();
    assert!(matches!(load_dnssec_key("###").err().unwrap(), KeyError::Base64(_)));
    let octets = STANDARD.encode([0xffu8, 0xfe]);
    assert!(matches!(load_dnssec_key(&octets).err().unwrap(), KeyError::NotText(_)));
    assert!(matches!(load("PublicKey: AAAA"), KeyError::MissingPrivateKey));
    assert!(matches!(load("PrivateKey: AAAA"), KeyError::MissingPublicKey));
    assert!(matches!(load("PrivateKey: #"), KeyError::Base64(_)));
    assert!(matches!(load("PrivateKey: AAAA\nPublicKey: #"), KeyError::Base64(_)));
    assert!(matches!(load("PrivateKey: AAAA\nPublicKey: AAAA"), KeyError::Pkcs8Key));
    let zeros = STANDARD.encode([0u8; 32]);
    assert!(matches!(
        load(&format!("PrivateKey: {}\nPublicKey: {}", zeros, zeros)),
        KeyError::RawKey
    ));
    assert_eq!(
        load_dnssec_key("###").err().unwrap().message(),
        STANDARD.decode("###").unwrap_err().to_string()
    );
    assert_eq!(
        load_dnssec_key(&octets).err().unwrap().message(),
        String::from_utf8(vec![0xff, 0xfe]).unwrap_err().to_string()
    );
    assert_eq!(load("PublicKey: AAAA").message(), "Missing PrivateKey");
    assert_eq!(load("PrivateKey: AAAA").message(), "Missing PublicKey");
    assert_eq!(
        load("PrivateKey: AAAA\nPublicKey: AAAA").message(),
        "Failed to load PKCS#8 key"
    );
    assert_eq!(KeyError::RawKey.message(), "Failed to load raw EC key");
    assert_eq!(KeyError::Generation.message(), "Key generation failed");
    assert_eq!(KeyError::GeneratedKey.message(), "Failed to parse generated key");
}
