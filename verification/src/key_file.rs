//! The text in which a signing key is kept.
use vstd::prelude::*;
use vstd::utf8::decode_utf8;
use vstd::utf8::encode_utf8;
use vstd::utf8::valid_utf8;

use crate::bytes::append;
use crate::crypto::base64_char;
use crate::crypto::base64_decoding;
use crate::crypto::base64_encoding;
use crate::crypto::decode_base64;
use crate::crypto::encode_base64;
use crate::crypto::generate_pkcs8;
use crate::crypto::pkcs8_public_key;
use crate::crypto::raw_keys_match;
use crate::crypto::uncompressed_point;
use crate::crypto::SigningKey;
use crate::dnssec::dnskey_wire;
use crate::dnssec::ds_text;
use crate::dnssec::key_tag_of;
use crate::dnssec::DnssecSigner;
use crate::dnssec::SignerView;
use crate::name::NameView;
use crate::outside::document_was_refused;
use crate::outside::key_making_failed;
use crate::outside::key_was_made;
use crate::outside::raw_keys_were_refused;
use crate::text::chars_of;
use crate::text::lemma_first_place_is;
use crate::text::lines;
use crate::text::lines_of;
use crate::text::push_text;
use crate::text::starts_at;
use crate::text::starts_with;
use crate::text::string_of;
use crate::text::strip_all;
use crate::text::strip_prefixes;
use crate::text::text_from_utf8;
use crate::text::texts;
use crate::text::trim;
use crate::text::trim_end;
use crate::text::trim_start;
use crate::text::trimmed;
use crate::text::utf8_error_text;
use crate::text::white_space;

verus! {

/// Why a key could not be made or read.
pub enum KeyError {
    /// A part is not base64, with a message about it.
    Base64(String),
    /// The key is not text, with a message about it.
    NotText(String),
    /// There is no line for the private key.
    MissingPrivateKey,
    /// There is no line for the public key.
    MissingPublicKey,
    /// The private and public key in raw form were refused.
    RawKey,
    /// The PKCS#8 document was refused.
    Pkcs8Key,
    /// No new key could be made.
    Generation,
    /// A new key could not be read again.
    GeneratedKey,
}

/// What a key error is about.
#[verifier::ext_equal]
pub enum KeyFault {
    Base64(Seq<char>),
    NotText(Seq<char>),
    MissingPrivateKey,
    MissingPublicKey,
    RawKey,
    Pkcs8Key,
    Generation,
    GeneratedKey,
}

impl KeyError {
    /// What the error is about.
    pub open spec fn fault(self) -> KeyFault {
        match self {
            KeyError::Base64(message) => KeyFault::Base64(message@),
            KeyError::NotText(message) => KeyFault::NotText(message@),
            KeyError::MissingPrivateKey => KeyFault::MissingPrivateKey,
            KeyError::MissingPublicKey => KeyFault::MissingPublicKey,
            KeyError::RawKey => KeyFault::RawKey,
            KeyError::Pkcs8Key => KeyFault::Pkcs8Key,
            KeyError::Generation => KeyFault::Generation,
            KeyError::GeneratedKey => KeyFault::GeneratedKey,
        }
    }
}

impl KeyError {
    /// What the error says.
    pub open spec fn text(self) -> Seq<char> {
        match self {
            KeyError::Base64(message) => message@,
            KeyError::NotText(message) => message@,
            KeyError::MissingPrivateKey => "Missing PrivateKey"@,
            KeyError::MissingPublicKey => "Missing PublicKey"@,
            KeyError::RawKey => "Failed to load raw EC key"@,
            KeyError::Pkcs8Key => "Failed to load PKCS#8 key"@,
            KeyError::Generation => "Key generation failed"@,
            KeyError::GeneratedKey => "Failed to parse generated key"@,
        }
    }

    /// The message of the error.
    pub fn message(&self) -> (r: String)
        ensures
            r@ == self.text(),
    {
        match self {
            KeyError::Base64(message) => message.clone(),
            KeyError::NotText(message) => message.clone(),
            KeyError::MissingPrivateKey => "Missing PrivateKey".to_string(),
            KeyError::MissingPublicKey => "Missing PublicKey".to_string(),
            KeyError::RawKey => "Failed to load raw EC key".to_string(),
            KeyError::Pkcs8Key => "Failed to load PKCS#8 key".to_string(),
            KeyError::Generation => "Key generation failed".to_string(),
            KeyError::GeneratedKey => "Failed to parse generated key".to_string(),
        }
    }
}

/// The text that holds a private and a public key, each in base64.
pub open spec fn key_text(private: Seq<char>, public: Seq<char>) -> Seq<char> {
    "Private-key-format: v1.3\nAlgorithm: 13 (ECDSAP256SHA256)\nPrivateKey: "@ + private
        + "\nPublicKey: "@ + public + "\n"@
}

/// The value on the last line that begins with `name`, without `name` and the white space around
/// the value.
pub open spec fn field(lines: Seq<Seq<char>>, name: Seq<char>) -> Option<Seq<char>>
    decreases lines.len(),
{
    if lines.len() == 0 {
        None
    } else if starts_with(lines.last(), name) {
        Some(trimmed(strip_all(lines.last(), name)))
    } else {
        field(lines.drop_last(), name)
    }
}

/// The private and the public key that a text holds, or what is wrong with it. The private key is
/// looked at first.
pub open spec fn keys_in(text: Seq<char>) -> Result<(Seq<u8>, Seq<u8>), KeyFault> {
    match field(lines_of(text), "PrivateKey:"@) {
        None => Err(KeyFault::MissingPrivateKey),
        Some(private) => match base64_decoding(private) {
            Err(message) => Err(KeyFault::Base64(message)),
            Ok(private) => match field(lines_of(text), "PublicKey:"@) {
                None => Err(KeyFault::MissingPublicKey),
                Some(public) => match base64_decoding(public) {
                    Err(message) => Err(KeyFault::Base64(message)),
                    Ok(public) => Ok((private, public)),
                },
            },
        },
    }
}

/// The private and the public key that a configured key holds: base64 of a text in UTF-8.
pub open spec fn keys_of(key: Seq<char>) -> Result<(Seq<u8>, Seq<u8>), KeyFault> {
    match base64_decoding(key) {
        Err(message) => Err(KeyFault::Base64(message)),
        Ok(octets) => if valid_utf8(octets) {
            keys_in(decode_utf8(octets))
        } else {
            Err(KeyFault::NotText(utf8_error_text(octets)))
        },
    }
}

/// The key under which signatures verify that are made with `private`: 32 octets are a raw key,
/// to which the public key has to belong, anything else a PKCS#8 document, which decides alone.
pub open spec fn is_verifying_key(
    private: Seq<u8>,
    public: Seq<u8>,
    verifying_key: Seq<u8>,
) -> bool {
    if private.len() == 32 {
        &&& verifying_key == seq![4u8] + public
        &&& raw_keys_match(private, verifying_key)
    } else {
        pkcs8_public_key(private) == Some(verifying_key)
    }
}

/// `result` may come of loading the configured key `key`.
pub open spec fn loads_as(key: Seq<char>, result: Result<SignerView, KeyFault>) -> bool {
    match keys_of(key) {
        Err(fault) => result == Err::<SignerView, KeyFault>(fault),
        Ok((private, public)) => match result {
            Ok(signer) => {
                &&& signer.public_key == public
                &&& is_verifying_key(private, public, signer.verifying_key)
            },
            Err(fault) => if private.len() == 32 {
                &&& fault == KeyFault::RawKey
                &&& raw_keys_were_refused(private, seq![4u8] + public)
            } else {
                &&& fault == KeyFault::Pkcs8Key
                &&& document_was_refused(private)
            },
        },
    }
}

/// The fault may come of making a key: none could be made, or the one that was made could not be
/// read.
pub open spec fn generation_failed(fault: KeyFault) -> bool {
    ||| fault == KeyFault::Generation && key_making_failed()
    ||| fault == KeyFault::GeneratedKey && exists|document: Seq<u8>| #[trigger]
        key_was_made(document) && document_was_refused(document)
}

/// `export` holds the key of `signer`: a PKCS#8 document and the public key without the octet
/// that marks an uncompressed point.
pub open spec fn exports(export: Seq<char>, signer: SignerView) -> bool {
    exists|document: Seq<u8>|
        document.len() == 138 && key_was_made(document) && #[trigger] exports_document(
            export,
            signer,
            document,
        )
}

/// `export` holds the key of `signer`, which is the one in `document`.
pub open spec fn exports_document(
    export: Seq<char>,
    signer: SignerView,
    document: Seq<u8>,
) -> bool {
    &&& pkcs8_public_key(document) == Some(signer.verifying_key)
    &&& uncompressed_point(signer.verifying_key)
    &&& signer.public_key == signer.verifying_key.skip(1)
    &&& export == exported(document, signer.public_key)
    &&& keys_of(export) == Ok::<(Seq<u8>, Seq<u8>), KeyFault>((document, signer.public_key))
}

/// The text to configure for a private and a public key.
pub open spec fn exported(private: Seq<u8>, public: Seq<u8>) -> Seq<char> {
    base64_encoding(encode_utf8(key_text(base64_encoding(private), base64_encoding(public))))
}

/// The result of loading a key, with what the signer holds or what the error is about.
pub open spec fn loaded_view(r: Result<DnssecSigner, KeyError>) -> Result<SignerView, KeyFault> {
    match r {
        Ok(signer) => Ok(signer@),
        Err(e) => Err(e.fault()),
    }
}

/// The text that an option holds.
pub open spec fn optional_text(t: Option<String>) -> Option<Seq<char>> {
    match t {
        Some(t) => Some(t@),
        None => None,
    }
}

/// The private and the public key, still in base64, that a text holds.
pub fn key_fields(text: &str) -> (r: (Option<String>, Option<String>))
    ensures
        optional_text(r.0) == field(lines_of(text@), "PrivateKey:"@),
        optional_text(r.1) == field(lines_of(text@), "PublicKey:"@),
{
    let private_name: Vec<char> = chars_of("PrivateKey:");
    let public_name: Vec<char> = chars_of("PublicKey:");
    let all: Vec<Vec<char>> = lines(chars_of(text).as_slice());
    let mut private: Option<String> = None;
    let mut public: Option<String> = None;
    let ghost seen = texts(all@);
    let mut i: usize = 0;
    proof {
        reveal_strlit("PrivateKey:");
        reveal_strlit("PublicKey:");
    }
    while i < all.len()
        invariant
            i <= all@.len(),
            seen == texts(all@),
            private_name@ == "PrivateKey:"@,
            public_name@ == "PublicKey:"@,
            private_name@.len() > 1,
            public_name@.len() > 1,
            private_name@[1] == 'r',
            public_name@[1] == 'u',
            optional_text(private) == field(seen.take(i as int), "PrivateKey:"@),
            optional_text(public) == field(seen.take(i as int), "PublicKey:"@),
        decreases all.len() - i,
    {
        let line: &Vec<char> = &all[i];
        proof {
            let next = seen.take(i + 1);
            assert(next.drop_last() =~= seen.take(i as int));
            assert(next.last() == line@);
            assert(line@.skip(0) =~= line@);
            if starts_with(line@, private_name@) && starts_with(line@, public_name@) {
                assert(line@.take(private_name@.len() as int)[1] == line@[1]);
                assert(line@.take(public_name@.len() as int)[1] == line@[1]);
            }
        }
        if starts_at(line.as_slice(), 0, private_name.as_slice()) {
            let value = trim(strip_prefixes(line.as_slice(), private_name.as_slice()).as_slice());
            private = Some(string_of(value.as_slice()));
        } else if starts_at(line.as_slice(), 0, public_name.as_slice()) {
            let value = trim(strip_prefixes(line.as_slice(), public_name.as_slice()).as_slice());
            public = Some(string_of(value.as_slice()));
        }
        i += 1;
    }
    assert(seen.take(i as int) =~= seen);
    (private, public)
}

/// The octets of the two keys that `r` holds, or what the error is about.
pub open spec fn keys_view(r: Result<(Vec<u8>, Vec<u8>), KeyError>) -> Result<
    (Seq<u8>, Seq<u8>),
    KeyFault,
> {
    match r {
        Ok(keys) => Ok((keys.0@, keys.1@)),
        Err(e) => Err(e.fault()),
    }
}

/// Reads the private and the public key from a text.
pub fn read_key_text(text: &str) -> (r: Result<(Vec<u8>, Vec<u8>), KeyError>)
    ensures
        keys_view(r) == keys_in(text@),
{
    let (private, public) = key_fields(text);
    let private: Vec<u8> = match private {
        None => {
            return Err(KeyError::MissingPrivateKey);
        },
        Some(private) => match decode_base64(private.as_str()) {
            Ok(octets) => octets,
            Err(e) => {
                return Err(KeyError::Base64(e));
            },
        },
    };
    match public {
        None => Err(KeyError::MissingPublicKey),
        Some(public) => match decode_base64(public.as_str()) {
            Ok(octets) => Ok((private, octets)),
            Err(e) => Err(KeyError::Base64(e)),
        },
    }
}

/// Reads the private and the public key from a configured key.
pub fn read_key(key: &str) -> (r: Result<(Vec<u8>, Vec<u8>), KeyError>)
    ensures
        keys_view(r) == keys_of(key@),
{
    match decode_base64(key) {
        Ok(octets) => match text_from_utf8(octets) {
            Ok(text) => read_key_text(text.as_str()),
            Err(e) => Err(KeyError::NotText(e)),
        },
        Err(e) => Err(KeyError::Base64(e)),
    }
}

/// Loads a configured key.
pub fn load_dnssec_key(key: &str) -> (r: Result<DnssecSigner, KeyError>)
    ensures
        loads_as(key@, loaded_view(r)),
{
    match read_key(key) {
        Ok((private, public)) => signer_for(private, public),
        Err(e) => Err(e),
    }
}

/// A signer for a private and a public key.
pub fn signer_for(private: Vec<u8>, public: Vec<u8>) -> (r: Result<DnssecSigner, KeyError>)
    ensures
        match r {
            Ok(signer) => {
                &&& signer@.public_key == public@
                &&& is_verifying_key(private@, public@, signer@.verifying_key)
            },
            Err(KeyError::RawKey) => private@.len() == 32 && raw_keys_were_refused(
                private@,
                seq![4u8] + public@,
            ),
            Err(KeyError::Pkcs8Key) => private@.len() != 32 && document_was_refused(private@),
            Err(_) => false,
        },
{
    if private.len() == 32 {
        let mut point: Vec<u8> = vec![4u8];
        append(&mut point, public.as_slice());
        assert(point@ =~= seq![4u8] + public@);
        let key_pair: Option<SigningKey> = SigningKey::from_parts(
            private.as_slice(),
            point.as_slice(),
        );
        loaded_signer(public, key_pair, KeyError::RawKey)
    } else {
        let key_pair: Option<SigningKey> = SigningKey::from_pkcs8(private.as_slice());
        loaded_signer(public, key_pair, KeyError::Pkcs8Key)
    }
}

/// The signer for a public key and the key that was read with it. Without one there is the error.
pub fn loaded_signer(
    public: Vec<u8>,
    key_pair: Option<SigningKey>,
    refusal: KeyError,
) -> (r: Result<DnssecSigner, KeyError>)
    ensures
        match key_pair {
            Some(k) => r matches Ok(signer) && signer@ == (SignerView {
                public_key: public@,
                verifying_key: k.verifying_key(),
            }),
            None => r == Err::<DnssecSigner, KeyError>(refusal),
        },
{
    match key_pair {
        Some(key_pair) => Ok(DnssecSigner::new(public, key_pair)),
        None => Err(refusal),
    }
}

/// Makes a new key, and the text to configure for it.
pub fn generate_dnssec_key() -> (r: Result<(DnssecSigner, String), KeyError>)
    ensures
        match r {
            Ok((signer, export)) => exports(export@, signer@),
            Err(e) => generation_failed(e.fault()),
        },
{
    match generate_pkcs8() {
        Some(document) => signer_with_export(document),
        None => Err(KeyError::Generation),
    }
}

/// The signer for the key in a PKCS#8 document, and the text to configure for it.
pub fn signer_with_export(document: Vec<u8>) -> (r: Result<(DnssecSigner, String), KeyError>)
    ensures
        match r {
            Ok((signer, export)) => exports_document(export@, signer@, document@),
            Err(e) => e.fault() == KeyFault::GeneratedKey && document_was_refused(document@),
        },
        pkcs8_public_key(document@) is None ==> r is Err,
{
    let key_pair: Option<SigningKey> = SigningKey::from_pkcs8(document.as_slice());
    exported_signer(document, key_pair)
}

/// The signer for a key pair that was read from a document, and the text to configure for it.
pub fn exported_signer(document: Vec<u8>, key_pair: Option<SigningKey>) -> (r: Result<
    (DnssecSigner, String),
    KeyError,
>)
    ensures
        match key_pair {
            Some(k) => r matches Ok((signer, export)) && {
                &&& signer@.verifying_key == k.verifying_key()
                &&& uncompressed_point(signer@.verifying_key)
                &&& signer@.public_key == signer@.verifying_key.skip(1)
                &&& export@ == exported(document@, signer@.public_key)
                &&& keys_of(export@) == Ok::<(Seq<u8>, Seq<u8>), KeyFault>(
                    (document@, signer@.public_key),
                )
            },
            None => r matches Err(KeyError::GeneratedKey),
        },
{
    match key_pair {
        Some(key_pair) => {
            let point: Vec<u8> = key_pair.public_key();
            let public: Vec<u8> = vstd::slice::slice_to_vec(
                vstd::slice::slice_subrange(point.as_slice(), 1, point.len()),
            );
            assert(public@ =~= point@.skip(1));
            let export: String = export_key(document.as_slice(), public.as_slice());
            Ok((DnssecSigner::new(public, key_pair), export))
        },
        None => Err(KeyError::GeneratedKey),
    }
}

/// Writes the text to configure for a private and a public key. The same keys are read from it
/// again.
pub fn export_key(private: &[u8], public: &[u8]) -> (r: String)
    ensures
        r@ == exported(private@, public@),
        keys_of(r@) == Ok::<(Seq<u8>, Seq<u8>), KeyFault>((private@, public@)),
{
    let private_text: String = encode_base64(private);
    let public_text: String = encode_base64(public);
    let mut text = String::new();
    push_text(
        &mut text,
        "Private-key-format: v1.3\nAlgorithm: 13 (ECDSAP256SHA256)\nPrivateKey: ",
    );
    push_text(&mut text, private_text.as_str());
    push_text(&mut text, "\nPublicKey: ");
    push_text(&mut text, public_text.as_str());
    push_text(&mut text, "\n");
    assert(text@ =~= key_text(private_text@, public_text@));
    proof {
        lemma_key_text_fields(private_text@, public_text@);
        vstd::utf8::encode_utf8_valid_utf8(text@);
        vstd::utf8::encode_utf8_decode_utf8(text@);
    }
    encode_base64(text.as_str().as_bytes())
}

/// A character that ends no line and is no white space.
spec fn solid(c: char) -> bool {
    !white_space(c)
}

spec fn solid_text(s: Seq<char>) -> bool {
    forall|i: int| 0 <= i < s.len() ==> solid(#[trigger] s[i])
}

proof fn lemma_base64_solid(s: Seq<char>)
    requires
        forall|i: int| 0 <= i < s.len() ==> base64_char(#[trigger] s[i]),
    ensures
        solid_text(s),
{
    assert forall|i: int| 0 <= i < s.len() implies solid(#[trigger] s[i]) by {
        assert(base64_char(s[i]));
    }
}

/// The first line of a text that begins with a whole line.
pub proof fn lemma_line(line: Seq<char>, rest: Seq<char>)
    requires
        forall|i: int| 0 <= i < line.len() ==> line[i] != '\n',
        line.len() > 0 ==> line.last() != '\r',
    ensures
        lines_of(line + seq!['\n'] + rest) == seq![line] + lines_of(rest),
{
    let s = line + seq!['\n'] + rest;
    lemma_first_place_is(s, '\n', line.len() as int);
    assert(s.take(line.len() as int) =~= line);
    assert(s.skip(line.len() as int + 1) =~= rest);
}

/// The value that stands behind a name, a colon and a space.
proof fn lemma_value(name: Seq<char>, value: Seq<char>)
    requires
        name.len() > 0,
        name[0] != ' ',
        solid_text(value),
    ensures
        starts_with(name + seq![' '] + value, name),
        trimmed(strip_all(name + seq![' '] + value, name)) == value,
{
    let line = name + seq![' '] + value;
    let rest = seq![' '] + value;
    assert(line.take(name.len() as int) =~= name);
    assert(line.skip(name.len() as int) =~= rest);
    if starts_with(rest, name) {
        assert(rest.take(name.len() as int)[0] == ' ');
    }
    assert(strip_all(rest, name) == rest);
    assert(strip_all(line, name) == rest);
    assert(white_space(' '));
    assert(rest.drop_first() =~= value);
    assert(trim_start(rest) == trim_start(value));
    if value.len() > 0 {
        assert(solid(value[0]));
        assert(solid(value[value.len() - 1]));
    }
    assert(trim_start(value) == value);
    assert(trim_end(value) == value);
}

proof fn lemma_key_text_fields(private: Seq<char>, public: Seq<char>)
    requires
        forall|i: int| 0 <= i < private.len() ==> base64_char(#[trigger] private[i]),
        forall|i: int| 0 <= i < public.len() ==> base64_char(#[trigger] public[i]),
    ensures
        field(lines_of(key_text(private, public)), "PrivateKey:"@) == Some(private),
        field(lines_of(key_text(private, public)), "PublicKey:"@) == Some(public),
{
    reveal_strlit("Private-key-format: v1.3\nAlgorithm: 13 (ECDSAP256SHA256)\nPrivateKey: ");
    reveal_strlit("\nPublicKey: ");
    reveal_strlit("\n");
    reveal_strlit("PrivateKey:");
    reveal_strlit("PublicKey:");
    reveal_strlit("Private-key-format: v1.3");
    reveal_strlit("Algorithm: 13 (ECDSAP256SHA256)");
    lemma_base64_solid(private);
    lemma_base64_solid(public);
    let format = "Private-key-format: v1.3"@;
    let algorithm = "Algorithm: 13 (ECDSAP256SHA256)"@;
    let private_line = "PrivateKey:"@ + seq![' '] + private;
    let public_line = "PublicKey:"@ + seq![' '] + public;
    let end = seq!['\n'];
    let none = Seq::<char>::empty();
    let text = key_text(private, public);
    let after_private = public_line + end + none;
    let after_algorithm = private_line + end + after_private;
    let after_format = algorithm + end + after_algorithm;
    assert(text =~= format + end + after_format);
    assert forall|i: int| 0 <= i < private_line.len() implies private_line[i] != '\n' by {
        if i >= 12 {
            assert(private_line[i] == private[i - 12]);
            assert(solid(private[i - 12]));
        }
    }
    assert forall|i: int| 0 <= i < public_line.len() implies public_line[i] != '\n' by {
        if i >= 11 {
            assert(public_line[i] == public[i - 11]);
            assert(solid(public[i - 11]));
        }
    }
    if private.len() > 0 {
        assert(solid(private.last()));
        assert(private_line.last() == private.last());
    }
    if public.len() > 0 {
        assert(solid(public.last()));
        assert(public_line.last() == public.last());
    }
    lemma_line(public_line, none);
    lemma_line(private_line, after_private);
    lemma_line(algorithm, after_algorithm);
    lemma_line(format, after_format);
    let all = seq![format, algorithm, private_line, public_line];
    assert(lines_of(none) =~= Seq::<Seq<char>>::empty());
    assert(lines_of(text) =~= all);
    lemma_value("PrivateKey:"@, private);
    lemma_value("PublicKey:"@, public);
    assert(all.last() == public_line);
    let three = all.drop_last();
    assert(three.last() == private_line);
    assert(public_line[1] == 'u');
    assert("PrivateKey:"@[1] == 'r');
    assert(public_line.take(11)[1] == 'u');
    assert(!starts_with(public_line, "PrivateKey:"@));
    assert(field(all, "PrivateKey:"@) == field(three, "PrivateKey:"@));
}

/// Law: a key that was made can be loaded again from its export. Loading gives a signer with the
/// same keys, the same key record, key tag and delegation, and with signatures that verify under
/// the key that was published; or it is refused by the reader of PKCS#8 documents, which needs
/// random octets.
pub proof fn law_export_loads_the_same_key(
    export: Seq<char>,
    signer: SignerView,
    result: Result<SignerView, KeyFault>,
)
    requires
        exports(export, signer),
        loads_as(export, result),
    ensures
        result == Ok::<SignerView, KeyFault>(signer) || result == Err::<SignerView, KeyFault>(
            KeyFault::Pkcs8Key,
        ),
        result is Err ==> exists|document: Seq<u8>| #[trigger]
            key_was_made(document) && document_was_refused(document),
        result matches Ok(loaded) ==> {
            &&& loaded.public_key == signer.public_key
            &&& loaded.public_key.len() == 64
            &&& loaded.verifying_key == seq![4u8] + signer.public_key
            &&& dnskey_wire(loaded.public_key) == dnskey_wire(signer.public_key)
            &&& key_tag_of(dnskey_wire(loaded.public_key)) == key_tag_of(
                dnskey_wire(signer.public_key),
            )
            &&& forall|domain: NameView|
                ds_text(domain, loaded.public_key) == #[trigger] ds_text(domain, signer.public_key)
        },
{
    law_made_key_verifies_under_published_key(export, signer);
    if let Ok(loaded) = result {
        assert(loaded =~= signer);
    }
}

/// Law: the signatures of a key that was made verify under the key that is published, with the
/// mark of an uncompressed point in front.
pub proof fn law_made_key_verifies_under_published_key(export: Seq<char>, signer: SignerView)
    requires
        exports(export, signer),
    ensures
        signer.verifying_key == seq![4u8] + signer.public_key,
{
    assert(signer.verifying_key =~= seq![4u8] + signer.verifying_key.skip(1));
}

} // verus!
