//! Signing of record sets, and the key that signs them.
use std::time::SystemTime;

use vstd::prelude::*;

use crate::bytes::append;
use crate::bytes::be16;
use crate::bytes::be32;
use crate::bytes::concat;
use crate::bytes::keyed;
use crate::bytes::keyed_order;
use crate::bytes::lemma_keyed_order_total;
use crate::bytes::lemma_octets_le_reflexive;
use crate::bytes::octets_le;
use crate::bytes::push_be16;
use crate::bytes::push_be32;
use crate::bytes::sort_keyed;
use crate::clock::duration_secs;
use crate::clock::seconds_since_epoch;
use crate::clock::time_since_epoch;
use crate::crypto::digest_sha256;
use crate::crypto::ecdsa_verifies;
use crate::crypto::sha256;
use crate::crypto::SigningKey;
use crate::name::counted_labels;
use crate::name::lower_labels;
use crate::name::name_to_wire;
use crate::name::name_to_wire_lowercase;
use crate::name::name_wire;
use crate::name::DomainName;
use crate::name::NameView;
use crate::outside::signing_failed;
use crate::outside::system_clock_gave;
use crate::record::rdata_to_wire;
use crate::record::rdata_wire;
use crate::record::record_views;
use crate::record::type_of;
use crate::record::Record;
use crate::record::RecordView;
use crate::record::CLASS_IN;
use crate::text::decimal;
use crate::text::push_decimal;
use crate::text::push_text;

verus! {

/// The number of the signing algorithm, ECDSA on P-256 with SHA-256.
pub const ALGORITHM_ECDSAP256SHA256: u8 = 13;

/// The number of the digest in a delegation, SHA-256.
pub const DS_DIGEST_SHA256: u8 = 2;

/// The flag of a key that signs a zone.
pub const DNSKEY_FLAG_ZONE: u16 = 256;

/// The flag of a key that delegations point to.
pub const DNSKEY_FLAG_SEP: u16 = 1;

/// How long before it is made a signature is already valid, in seconds.
pub const INCEPTION_LEEWAY: u32 = 86_400;

/// How long a signature is valid after it is made, in seconds.
pub const VALIDITY: u32 = 604_800;

/// Why a record set was not signed.
#[derive(Clone, Copy, Debug, PartialEq, Eq, Structural)]
pub enum SignError {
    /// There is nothing to sign.
    EmptyRrset,
    /// The clock shows a time before 1970.
    Clock,
    /// The signature could not be made.
    Signing,
}

impl SignError {
    /// What the error says.
    pub open spec fn text(self) -> Seq<char> {
        match self {
            SignError::EmptyRrset => "Cannot sign empty RRset"@,
            SignError::Clock => "second time provided was later than self"@,
            SignError::Signing => "Signing failed"@,
        }
    }

    /// The message of the error.
    pub fn message(&self) -> (r: String)
        ensures
            r@ == self.text(),
    {
        match self {
            SignError::EmptyRrset => "Cannot sign empty RRset".to_string(),
            SignError::Clock => "second time provided was later than self".to_string(),
            SignError::Signing => "Signing failed".to_string(),
        }
    }
}

/// The data of the record that publishes a key: flags, protocol, algorithm and the key.
pub open spec fn dnskey_wire(public_key: Seq<u8>) -> Seq<u8> {
    be16((DNSKEY_FLAG_ZONE + DNSKEY_FLAG_SEP) as u16) + seq![3u8, ALGORITHM_ECDSAP256SHA256]
        + public_key
}

/// The sum of the 16-bit words that the octets make, the last one filled up with zero bits.
pub open spec fn word_sum(octets: Seq<u8>) -> nat
    decreases octets.len(),
{
    if octets.len() == 0 {
        0
    } else {
        let last = octets.last() as nat;
        word_sum(octets.drop_last()) + if octets.len() % 2 == 1 {
            last * 256
        } else {
            last
        }
    }
}

/// The number that helps to find a key: the sum of the words in its record data, in 32 bits,
/// with the upper half added to the lower.
pub open spec fn key_tag_of(rdata: Seq<u8>) -> u16 {
    let sum = word_sum(rdata) % 0x1_0000_0000;
    ((sum + sum / 0x1_0000) % 0x1_0000) as u16
}

/// The upper case hexadecimal digit for a number below sixteen.
pub open spec fn hex_digit(n: nat) -> char {
    if n < 10 {
        (48 + n) as char
    } else {
        (55 + n) as char
    }
}

/// Octets as hexadecimal digits, two for each.
pub open spec fn hex(octets: Seq<u8>) -> Seq<char>
    decreases octets.len(),
{
    if octets.len() == 0 {
        seq![]
    } else {
        hex(octets.drop_last()).push(hex_digit((octets.last() / 16) as nat)).push(
            hex_digit((octets.last() % 16) as nat),
        )
    }
}

/// The text of the delegation record for a key: key tag, algorithm, digest type and the digest of
/// the name in lower case with the key's record data.
pub open spec fn ds_text(name: NameView, public_key: Seq<u8>) -> Seq<char> {
    decimal(key_tag_of(dnskey_wire(public_key)) as nat) + " "@ + decimal(
        ALGORITHM_ECDSAP256SHA256 as nat,
    ) + " "@ + decimal(DS_DIGEST_SHA256 as nat) + " "@ + hex(
        sha256(name_wire(lower_labels(name.labels)) + dnskey_wire(public_key)),
    )
}

/// When a signature made at `now` begins to be valid, in seconds since 1970 that wrap at 32 bits.
pub open spec fn inception(now: u32) -> u32 {
    ((now - INCEPTION_LEEWAY) % 0x1_0000_0000) as u32
}

/// When a signature made at `now` ends to be valid, in seconds since 1970 that wrap at 32 bits.
pub open spec fn expiration(now: u32) -> u32 {
    ((now + VALIDITY) % 0x1_0000_0000) as u32
}

/// What a signature record says before the signature itself.
pub open spec fn rrsig_head(
    first: RecordView,
    signer: NameView,
    ttl: u32,
    now: u32,
    key_tag: u16,
) -> Seq<u8> {
    be16(type_of(first.data)) + seq![
        ALGORITHM_ECDSAP256SHA256,
        counted_labels(first.name.labels) as u8,
    ] + be32(ttl) + be32(expiration(now)) + be32(inception(now)) + be16(key_tag) + name_wire(
        signer.labels,
    )
}

/// A record in the form in which it is signed: the owner in lower case, the time to live as
/// published, and the data behind its length in 16 bits.
pub open spec fn canonical_record(record: RecordView, ttl: u32) -> Seq<u8> {
    let rdata = rdata_wire(record.data);
    name_wire(lower_labels(record.name.labels)) + be16(type_of(record.data)) + be16(CLASS_IN)
        + be32(ttl) + be16((rdata.len() % 0x1_0000) as u16) + rdata
}

/// The records of a set in the form in which they are signed.
pub open spec fn canonical_records(rrset: Seq<RecordView>, ttl: u32) -> Seq<Seq<u8>> {
    rrset.map_values(|r: RecordView| canonical_record(r, ttl))
}

/// The data of a record, by which it is sorted, and the record in the form in which it is signed.
pub open spec fn keyed_record(record: RecordView, ttl: u32) -> (Seq<u8>, Seq<u8>) {
    (rdata_wire(record.data), canonical_record(record, ttl))
}

/// The data of each record of a set, and the record in the form in which it is signed.
pub open spec fn keyed_records(rrset: Seq<RecordView>, ttl: u32) -> Seq<(Seq<u8>, Seq<u8>)> {
    rrset.map_values(|r: RecordView| keyed_record(r, ttl))
}

/// What stands behind the keys.
pub open spec fn without_keys(items: Seq<(Seq<u8>, Seq<u8>)>) -> Seq<Seq<u8>> {
    items.map_values(|p: (Seq<u8>, Seq<u8>)| p.1)
}

/// The message that is signed for a record set: what the signature record says before the
/// signature, and the records in their canonical order, sorted by their data.
pub open spec fn signed_message(head: Seq<u8>, rrset: Seq<RecordView>, ttl: u32) -> Seq<u8> {
    head + concat(without_keys(keyed_records(rrset, ttl).sort_by(keyed_order())))
}

/// What a signer holds: the key it publishes, and the key under which its signatures verify.
#[verifier::ext_equal]
pub struct SignerView {
    pub public_key: Seq<u8>,
    pub verifying_key: Seq<u8>,
}

/// `rdata` is the data of a signature record for `rrset`, made at `now` under the name `signer`.
pub open spec fn is_rrsig(
    rdata: Seq<u8>,
    key: SignerView,
    rrset: Seq<RecordView>,
    signer: NameView,
    ttl: u32,
    now: u32,
) -> bool {
    let head = rrsig_head(rrset[0], signer, ttl, now, key_tag_of(dnskey_wire(key.public_key)));
    &&& rdata.len() == head.len() + 64
    &&& rdata.take(head.len() as int) == head
    &&& ecdsa_verifies(
        key.verifying_key,
        signed_message(head, rrset, ttl),
        rdata.skip(head.len() as int),
    )
}

/// `rdata` is the data of a signature record for `rrset`, made at some time under the name
/// `signer`.
pub open spec fn is_some_rrsig(
    rdata: Seq<u8>,
    key: SignerView,
    rrset: Seq<RecordView>,
    signer: NameView,
    ttl: u32,
) -> bool {
    exists|now: u32| #[trigger]
        time_was_read(now) && is_rrsig(rdata, key, rrset, signer, ttl, now)
}

/// The system clock was read, and showed this time in seconds since 1970 that wrap at 32 bits.
pub open spec fn time_was_read(now: u32) -> bool {
    exists|t: SystemTime| #[trigger]
        system_clock_gave(t) && time_since_epoch(t) is Some && now == duration_secs(
            time_since_epoch(t)->0,
        ) % 0x1_0000_0000
}

/// The system clock was read, and showed a time before 1970.
pub open spec fn clock_was_early() -> bool {
    exists|t: SystemTime| #[trigger] system_clock_gave(t) && time_since_epoch(t) is None
}

/// What is signed for a set at `now`.
pub open spec fn message_at(
    key: SignerView,
    rrset: Seq<RecordView>,
    signer: NameView,
    ttl: u32,
    now: u32,
) -> Seq<u8> {
    signed_message(
        rrsig_head(rrset[0], signer, ttl, now, key_tag_of(dnskey_wire(key.public_key))),
        rrset,
        ttl,
    )
}

/// The set was to be signed and was not: it is empty, the clock showed no time, or the key made no
/// signature of this very set.
pub open spec fn could_not_sign(
    key: SignerView,
    rrset: Seq<RecordView>,
    signer: NameView,
    ttl: u32,
) -> bool {
    ||| rrset.len() == 0
    ||| clock_was_early()
    ||| exists|now: u32| #[trigger]
        time_was_read(now) && signing_failed(
            key.verifying_key,
            message_at(key, rrset, signer, ttl, now),
        )
}

/// A key that signs record sets.
pub struct DnssecSigner {
    public_key: Vec<u8>,
    key_pair: SigningKey,
    key_tag: u16,
    dnskey_rdata: Vec<u8>,
}

impl View for DnssecSigner {
    type V = SignerView;

    closed spec fn view(&self) -> SignerView {
        SignerView {
            public_key: self.public_key@,
            verifying_key: self.key_pair.verifying_key(),
        }
    }
}

impl DnssecSigner {
    #[verifier::type_invariant]
    spec fn in_step(self) -> bool {
        &&& self.dnskey_rdata@ == dnskey_wire(self.public_key@)
        &&& self.key_tag == key_tag_of(self.dnskey_rdata@)
    }

    /// A signer that publishes `public_key` and signs with `key_pair`.
    pub fn new(public_key: Vec<u8>, key_pair: SigningKey) -> (r: DnssecSigner)
        ensures
            r@ == (SignerView {
                public_key: public_key@,
                verifying_key: key_pair.verifying_key(),
            }),
    {
        let mut dnskey_rdata: Vec<u8> = Vec::new();
        push_be16(&mut dnskey_rdata, DNSKEY_FLAG_ZONE + DNSKEY_FLAG_SEP);
        dnskey_rdata.push(3);
        dnskey_rdata.push(ALGORITHM_ECDSAP256SHA256);
        append(&mut dnskey_rdata, public_key.as_slice());
        assert(dnskey_rdata@ =~= dnskey_wire(public_key@));
        let key_tag: u16 = DnssecSigner::calculate_key_tag(dnskey_rdata.as_slice());
        DnssecSigner { public_key, key_pair, key_tag, dnskey_rdata }
    }

    /// The key that is published.
    pub fn public_key(&self) -> (r: &[u8])
        ensures
            r@ == self@.public_key,
    {
        self.public_key.as_slice()
    }

    /// The tag of the key.
    pub fn key_tag(&self) -> (r: u16)
        ensures
            r == key_tag_of(dnskey_wire(self@.public_key)),
    {
        proof {
            use_type_invariant(self);
        }
        self.key_tag
    }

    /// The data of the record that publishes the key.
    pub fn dnskey_rdata(&self) -> (r: &[u8])
        ensures
            r@ == dnskey_wire(self@.public_key),
    {
        proof {
            use_type_invariant(self);
        }
        self.dnskey_rdata.as_slice()
    }

    /// Computes the tag of a key from its record data.
    pub fn calculate_key_tag(dnskey_rdata: &[u8]) -> (r: u16)
        ensures
            r == key_tag_of(dnskey_rdata@),
    {
        let mut sum: u32 = 0;
        let mut i: usize = 0;
        while i < dnskey_rdata.len()
            invariant
                i <= dnskey_rdata@.len(),
                sum == word_sum(dnskey_rdata@.take(i as int)) % 0x1_0000_0000,
            decreases dnskey_rdata.len() - i,
        {
            let byte: u32 = dnskey_rdata[i] as u32;
            let part: u32 = if i % 2 == 0 {
                byte * 256
            } else {
                byte
            };
            proof {
                let next = dnskey_rdata@.take(i + 1);
                assert(next.drop_last() =~= dnskey_rdata@.take(i as int));
                assert(next.last() == dnskey_rdata@[i as int]);
            }
            sum = sum.wrapping_add(part);
            i += 1;
        }
        assert(dnskey_rdata@.take(i as int) =~= dnskey_rdata@);
        let folded: u32 = sum.wrapping_add(sum / 0x1_0000);
        (folded % 0x1_0000) as u16
    }

    /// The text of the record that delegates `domain` to this key.
    pub fn get_ds_record(&self, domain: &DomainName) -> (r: String)
        ensures
            r@ == ds_text(domain@, self@.public_key),
    {
        proof {
            use_type_invariant(self);
        }
        let mut data: Vec<u8> = name_to_wire_lowercase(domain);
        append(&mut data, self.dnskey_rdata.as_slice());
        let digest: Vec<u8> = digest_sha256(data.as_slice());
        let mut r = String::new();
        push_decimal(&mut r, self.key_tag as u64);
        push_text(&mut r, " ");
        push_decimal(&mut r, ALGORITHM_ECDSAP256SHA256 as u64);
        push_text(&mut r, " ");
        push_decimal(&mut r, DS_DIGEST_SHA256 as u64);
        push_text(&mut r, " ");
        push_hex(&mut r, digest.as_slice());
        assert(r@ =~= ds_text(domain@, self@.public_key));
        r
    }

    /// Signs a record set at the time that the clock shows and gives the data of the signature
    /// record. An empty set is refused whatever the clock shows.
    pub fn sign_rrset(
        &self,
        rrset: &[Record],
        signer_name: &DomainName,
        original_ttl: u32,
    ) -> (r: Result<Vec<u8>, SignError>)
        ensures
            match r {
                Ok(rdata) => rrset@.len() > 0 && is_some_rrsig(
                    rdata@,
                    self@,
                    record_views(rrset@),
                    signer_name@,
                    original_ttl,
                ),
                Err(e) => {
                    &&& (e == SignError::EmptyRrset) == (rrset@.len() == 0)
                    &&& could_not_sign(self@, record_views(rrset@), signer_name@, original_ttl)
                },
            },
    {
        let read: SystemTime = SystemTime::now();
        assert(system_clock_gave(read));
        let seconds: Option<u64> = seconds_since_epoch(read);
        proof {
            if time_since_epoch(read) is Some {
                assert(time_was_read((seconds->0 % 0x1_0000_0000) as u32));
            } else {
                assert(clock_was_early());
            }
        }
        self.sign_rrset_when(rrset, signer_name, original_ttl, seconds)
    }

    /// Signs a record set when the clock shows `seconds`, or a time before 1970, and gives the
    /// data of the signature record.
    pub fn sign_rrset_when(
        &self,
        rrset: &[Record],
        signer_name: &DomainName,
        original_ttl: u32,
        seconds: Option<u64>,
    ) -> (r: Result<Vec<u8>, SignError>)
        ensures
            match r {
                Ok(rdata) => {
                    &&& rrset@.len() > 0
                    &&& seconds is Some
                    &&& is_rrsig(
                        rdata@,
                        self@,
                        record_views(rrset@),
                        signer_name@,
                        original_ttl,
                        (seconds->0 % 0x1_0000_0000) as u32,
                    )
                },
                Err(SignError::EmptyRrset) => rrset@.len() == 0,
                Err(SignError::Clock) => rrset@.len() > 0 && seconds is None,
                Err(SignError::Signing) => rrset@.len() > 0 && seconds is Some && signing_failed(
                    self@.verifying_key,
                    message_at(
                        self@,
                        record_views(rrset@),
                        signer_name@,
                        original_ttl,
                        (seconds->0 % 0x1_0000_0000) as u32,
                    ),
                ),
            },
    {
        if rrset.len() == 0 {
            return Err(SignError::EmptyRrset);
        }
        match signing_time(seconds) {
            Ok(now) => self.sign_rrset_at(rrset, signer_name, original_ttl, now),
            Err(e) => Err(e),
        }
    }

    /// Signs a record set at the time `now` and gives the data of the signature record.
    pub fn sign_rrset_at(
        &self,
        rrset: &[Record],
        signer_name: &DomainName,
        original_ttl: u32,
        now: u32,
    ) -> (r: Result<Vec<u8>, SignError>)
        ensures
            match r {
                Ok(rdata) => rrset@.len() > 0 && is_rrsig(
                    rdata@,
                    self@,
                    record_views(rrset@),
                    signer_name@,
                    original_ttl,
                    now,
                ),
                Err(SignError::EmptyRrset) => rrset@.len() == 0,
                Err(SignError::Signing) => rrset@.len() > 0 && signing_failed(
                    self@.verifying_key,
                    message_at(self@, record_views(rrset@), signer_name@, original_ttl, now),
                ),
                Err(SignError::Clock) => false,
            },
    {
        if rrset.len() == 0 {
            return Err(SignError::EmptyRrset);
        }
        let head: Vec<u8> = self.rrsig_prefix(&rrset[0], signer_name, original_ttl, now);
        let ghost start = head@;
        let message: Vec<u8> = message_to_sign(head.as_slice(), rrset, original_ttl);
        let signature: Option<Vec<u8>> = self.key_pair.sign(message.as_slice());
        proof {
            assert(record_views(rrset@)[0] == rrset@[0]@);
            if signature is Some {
                let made = signature->0@;
                assert((start + made).take(start.len() as int) =~= start);
                assert((start + made).skip(start.len() as int) =~= made);
            }
        }
        rrsig_data(head, signature)
    }

    /// What the signature record for a set that begins with `first` says before the signature.
    pub fn rrsig_prefix(
        &self,
        first: &Record,
        signer_name: &DomainName,
        original_ttl: u32,
        now: u32,
    ) -> (r: Vec<u8>)
        ensures
            r@ == rrsig_head(
                first@,
                signer_name@,
                original_ttl,
                now,
                key_tag_of(dnskey_wire(self@.public_key)),
            ),
    {
        proof {
            use_type_invariant(self);
        }
        let ends: u32 = now.wrapping_add(VALIDITY);
        let begins: u32 = now.wrapping_sub(INCEPTION_LEEWAY);
        assert(ends == expiration(now));
        assert(begins == inception(now));
        let labels: u8 = first.name.num_labels();
        let mut r: Vec<u8> = Vec::new();
        push_be16(&mut r, first.record_type());
        r.push(ALGORITHM_ECDSAP256SHA256);
        r.push(labels);
        assert(r@ =~= be16(type_of(first@.data)) + seq![ALGORITHM_ECDSAP256SHA256, labels]);
        push_be32(&mut r, original_ttl);
        push_be32(&mut r, ends);
        push_be32(&mut r, begins);
        push_be16(&mut r, self.key_tag);
        append(&mut r, name_to_wire(signer_name).as_slice());
        r
    }
}

/// The time of a signature when the clock shows `seconds`, or a time before 1970: the seconds
/// wrap at 32 bits.
pub fn signing_time(seconds: Option<u64>) -> (r: Result<u32, SignError>)
    ensures
        match seconds {
            Some(s) => r == Ok::<u32, SignError>((s % 0x1_0000_0000) as u32),
            None => r == Err::<u32, SignError>(SignError::Clock),
        },
{
    match seconds {
        Some(s) => Ok((s % 0x1_0000_0000) as u32),
        None => Err(SignError::Clock),
    }
}

/// The data of a signature record: what it says before the signature, and the signature that was
/// made. Without one there is none.
pub fn rrsig_data(head: Vec<u8>, signature: Option<Vec<u8>>) -> (r: Result<Vec<u8>, SignError>)
    ensures
        match signature {
            Some(s) => r matches Ok(d) && d@ == head@ + s@,
            None => r matches Err(SignError::Signing),
        },
{
    match signature {
        Some(s) => {
            let mut data: Vec<u8> = head;
            append(&mut data, s.as_slice());
            Ok(data)
        },
        None => Err(SignError::Signing),
    }
}

/// Adds octets to a text as hexadecimal digits.
fn push_hex(out: &mut String, octets: &[u8])
    ensures
        final(out)@ == old(out)@ + hex(octets@),
{
    let ghost before = out@;
    let mut i: usize = 0;
    assert(out@ =~= before + hex(octets@.take(0)));
    while i < octets.len()
        invariant
            i <= octets@.len(),
            out@ == before + hex(octets@.take(i as int)),
        decreases octets.len() - i,
    {
        let octet: u8 = octets[i];
        proof {
            let next = octets@.take(i + 1);
            assert(next.drop_last() =~= octets@.take(i as int));
            assert(next.last() == octet);
        }
        out.push(digit_in_hex(octet / 16));
        out.push(digit_in_hex(octet % 16));
        i += 1;
        assert(out@ =~= before + hex(octets@.take(i as int)));
    }
    assert(octets@.take(i as int) =~= octets@);
}

fn digit_in_hex(n: u8) -> (r: char)
    requires
        n < 16,
    ensures
        r == hex_digit(n as nat),
{
    if n < 10 {
        (48 + n) as char
    } else {
        (55 + n) as char
    }
}

/// A record in the form in which it is signed.
fn record_to_sign(record: &Record, ttl: u32) -> (r: Vec<u8>)
    ensures
        r@ == canonical_record(record@, ttl),
{
    let rdata: Vec<u8> = rdata_to_wire(record);
    let mut r: Vec<u8> = name_to_wire_lowercase(&record.name);
    push_be16(&mut r, record.record_type());
    push_be16(&mut r, CLASS_IN);
    push_be32(&mut r, ttl);
    push_be16(&mut r, (rdata.len() % 0x1_0000) as u16);
    append(&mut r, rdata.as_slice());
    r
}

/// The message that is signed for a record set.
pub fn message_to_sign(head: &[u8], rrset: &[Record], ttl: u32) -> (r: Vec<u8>)
    ensures
        r@ == signed_message(head@, record_views(rrset@), ttl),
{
    let ghost items = keyed_records(record_views(rrset@), ttl);
    let mut records: Vec<(Vec<u8>, Vec<u8>)> = Vec::new();
    let mut i: usize = 0;
    while i < rrset.len()
        invariant
            i <= rrset@.len(),
            items == keyed_records(record_views(rrset@), ttl),
            keyed(records@) == items.take(i as int),
        decreases rrset.len() - i,
    {
        let rdata: Vec<u8> = rdata_to_wire(&rrset[i]);
        let record: Vec<u8> = record_to_sign(&rrset[i], ttl);
        let ghost before = records@;
        records.push((rdata, record));
        i += 1;
        assert(keyed(records@) =~= keyed(before).push((rdata@, record@)));
        assert(keyed(records@) =~= items.take(i as int));
    }
    assert(keyed(records@) =~= items);
    let sorted: Vec<(Vec<u8>, Vec<u8>)> = sort_keyed(records);
    let mut r: Vec<u8> = vstd::slice::slice_to_vec(head);
    let ghost all = without_keys(keyed(sorted@));
    let mut j: usize = 0;
    assert(r@ =~= head@ + concat(all.take(0)));
    while j < sorted.len()
        invariant
            j <= sorted@.len(),
            all == without_keys(keyed(sorted@)),
            r@ == head@ + concat(all.take(j as int)),
        decreases sorted.len() - j,
    {
        append(&mut r, sorted[j].1.as_slice());
        proof {
            let next = all.take(j + 1);
            assert(next.drop_last() =~= all.take(j as int));
            assert(next.last() == sorted@[j as int].1@);
        }
        j += 1;
        assert(r@ =~= head@ + concat(all.take(j as int)));
    }
    assert(all.take(j as int) =~= all);
    r
}

proof fn lemma_same_records(a: Seq<RecordView>, b: Seq<RecordView>, ttl: u32)
    requires
        a.to_multiset() == b.to_multiset(),
    ensures
        keyed_records(a, ttl).to_multiset() == keyed_records(b, ttl).to_multiset(),
    decreases a.len(),
{
    broadcast use vstd::seq_lib::group_to_multiset_ensures;

    assert(a.len() == a.to_multiset().len() && b.len() == b.to_multiset().len());
    if a.len() == 0 {
        assert(a =~= b);
    } else {
        let x = a.last();
        let short = a.drop_last();
        assert(a =~= short.push(x));
        assert(a.contains(x));
        assert(b.to_multiset().count(x) > 0);
        assert(b.contains(x));
        let j = choose|j: int| 0 <= j < b.len() && b[j] == x;
        let ka = keyed_records(a, ttl);
        let kb = keyed_records(b, ttl);
        let y = keyed_record(x, ttl);
        assert(short.to_multiset() =~= b.remove(j).to_multiset());
        lemma_same_records(short, b.remove(j), ttl);
        assert(ka =~= keyed_records(short, ttl).push(y));
        assert(kb.remove(j) =~= keyed_records(b.remove(j), ttl));
        assert(kb[j] == y);
        assert(kb.contains(y));
        assert(kb.to_multiset().count(y) > 0);
        assert(ka.to_multiset() =~= kb.to_multiset());
    }
}

/// Law: the order in which the records of a set are given makes no difference to what is signed.
pub proof fn law_signed_message_ignores_order(
    head: Seq<u8>,
    a: Seq<RecordView>,
    b: Seq<RecordView>,
    ttl: u32,
)
    requires
        a.to_multiset() == b.to_multiset(),
    ensures
        signed_message(head, a, ttl) == signed_message(head, b, ttl),
{
    let ka = keyed_records(a, ttl);
    let kb = keyed_records(b, ttl);
    lemma_same_records(a, b, ttl);
    lemma_keyed_order_total();
    ka.lemma_sort_by_ensures(keyed_order());
    kb.lemma_sort_by_ensures(keyed_order());
    vstd::seq_lib::lemma_sorted_unique(
        ka.sort_by(keyed_order()),
        kb.sort_by(keyed_order()),
        keyed_order(),
    );
}

/// The records have one owner, whatever the case of its letters, and one type.
pub open spec fn is_rrset(records: Seq<RecordView>) -> bool {
    forall|i: int, j: int|
        0 <= i < records.len() && 0 <= j < records.len() ==> {
            &&& lower_labels((#[trigger] records[i]).name.labels) == lower_labels(
                (#[trigger] records[j]).name.labels,
            )
            &&& type_of(records[i].data) == type_of(records[j].data)
        }
}

/// The records stand in the order of their data.
pub open spec fn sorted_by_data(records: Seq<RecordView>) -> bool {
    forall|i: int, j: int|
        0 <= i < j < records.len() ==> octets_le(
            rdata_wire((#[trigger] records[i]).data),
            rdata_wire((#[trigger] records[j]).data),
        )
}

/// Law: what is signed for a set with one owner and one type are its records, each once, in the
/// order of their data.
pub proof fn law_signed_message_is_sorted_by_data(
    head: Seq<u8>,
    rrset: Seq<RecordView>,
    sorted: Seq<RecordView>,
    ttl: u32,
)
    requires
        is_rrset(rrset),
        sorted.to_multiset() == rrset.to_multiset(),
        sorted_by_data(sorted),
    ensures
        signed_message(head, rrset, ttl) == head + concat(canonical_records(sorted, ttl)),
{
    broadcast use vstd::seq_lib::group_to_multiset_ensures;

    let items = keyed_records(rrset, ttl);
    let arranged = keyed_records(sorted, ttl);
    lemma_same_records(sorted, rrset, ttl);
    lemma_keyed_order_total();
    items.lemma_sort_by_ensures(keyed_order());
    assert forall|i: int, j: int| 0 <= i < j < arranged.len() implies keyed_order()(
        #[trigger] arranged[i],
        #[trigger] arranged[j],
    ) by {
        let a = sorted[i];
        let b = sorted[j];
        assert(sorted.contains(a) && sorted.contains(b));
        assert(rrset.to_multiset().count(a) > 0 && rrset.to_multiset().count(b) > 0);
        assert(rrset.contains(a) && rrset.contains(b));
        assert(arranged[i] == keyed_record(a, ttl));
        assert(arranged[j] == keyed_record(b, ttl));
        if rdata_wire(a.data) == rdata_wire(b.data) {
            assert(canonical_record(a, ttl) == canonical_record(b, ttl));
            lemma_octets_le_reflexive(canonical_record(a, ttl));
        }
    }
    vstd::seq_lib::lemma_sorted_unique(arranged, items.sort_by(keyed_order()), keyed_order());
    assert(without_keys(arranged) =~= canonical_records(sorted, ttl));
}

/// Law: as long as the times fit in 32 bits, a signature is valid for a day before it is made and
/// for seven days after.
pub proof fn law_signature_is_valid_around_its_time(now: u32)
    requires
        INCEPTION_LEEWAY <= now <= u32::MAX - VALIDITY,
    ensures
        inception(now) == now - 24 * 3600,
        expiration(now) == now + 7 * 24 * 3600,
{
}

} // verus!
