use give_me_dns::bytes::sort_keyed;
use give_me_dns::name::DomainName;
use give_me_dns::record::rdata_to_wire;
use give_me_dns::zone::make_nsec;
use give_me_dns::zone::make_rrsig;
use give_me_dns::zone::types_to_wire;

#[test]
fn types_stand_in_a_bitmap() {
    assert_eq!(types_to_wire(&[46, 47]), [0, 6, 0, 0, 0, 0, 0, 3]);
    assert_eq!(types_to_wire(&[28, 46, 47]), [0, 6, 0, 0, 0, 8, 0, 3]);
    assert_eq!(types_to_wire(&[6, 2, 48, 46, 47]), [0, 7, 0x22, 0, 0, 0, 0, 3, 0x80]);
    assert_eq!(types_to_wire(&[1, 1]), [0, 1, 0x40]);
    assert_eq!(types_to_wire(&[]), [0, 1, 0]);
    assert_eq!(types_to_wire(&[256, 65535]), [0, 1, 0]);
    let mut last = vec![0u8, 32];
    last.extend_from_slice(&[0; 31]);
    last.push(1);
    assert_eq!(types_to_wire(&[255]), last);
}

#[test]
fn the_proof_of_absence_names_the_next_name() {
    let name = DomainName::from_ascii("x.me.").unwrap();
    let nsec = make_nsec(&name, &name.make_black_lies_next_name(), &[46, 47]);
    assert_eq!(nsec.record_type(), 47);
    assert_eq!(nsec.ttl, 3600);
    assert_eq!(nsec.name.text(), "x.me.");
    assert_eq!(rdata_to_wire(&nsec), b"\x01\x00\x01x\x02me\x00\x00\x06\x00\x00\x00\x00\x00\x03");
}

#[test]
fn a_signature_record_carries_its_data() {
    let name = DomainName::from_ascii("x.me.").unwrap();
    let record = make_rrsig(&name, 7, vec![1, 2, 3]);
    assert_eq!((record.record_type(), record.ttl), (46, 7));
    assert_eq!(rdata_to_wire(&record), [1, 2, 3]);
}

#[test]
fn octet_strings_are_sorted_by_key() {
    let keys = [vec![2u8], vec![1, 255], vec![], vec![1], vec![2], vec![1, 0, 0]];
    let items: Vec<(Vec<u8>, Vec<u8>)> =
        keys.iter().enumerate().map(|(n, key)| (key.clone(), vec![9 - n as u8])).collect();
    let mut expected = items.clone();
    expected.sort();
    assert_eq!(sort_keyed(items), expected);
}
