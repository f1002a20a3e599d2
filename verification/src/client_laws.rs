//! What clients are told, where ids come from, and how keys are read.
use vstd::prelude::*;
use vstd::utf8::encode_utf8;
use vstd::utf8::encode_utf8_decode_utf8;
use vstd::utf8::encode_utf8_valid_utf8;
use vstd::utf8::valid_utf8;

use crate::address::first_forwarded;
use crate::address::ipv6_text;
use crate::clock::humanized;
use crate::clock::rfc3339_text;
use crate::config::lemma_decimal;
use crate::crypto::base64_decoding;
use crate::crypto::pkcs8_public_key;
use crate::crypto::raw_keys_match;
use crate::dnssec::SignerView;
use crate::http::info_of;
use crate::http::res_fields;
use crate::http::top_fields;
use crate::http::InfoView;
use crate::http::ValueView;
use crate::idprov::first_digits;
use crate::idprov::random_offered;
use crate::idprov::word_offered;
use crate::idprov::words_of;
use crate::key_file::field;
use crate::key_file::keys_in;
use crate::key_file::keys_of;
use crate::key_file::lemma_line;
use crate::key_file::loads_as;
use crate::key_file::KeyFault;
use crate::net::registered_text;
use crate::outside::document_was_refused;
use crate::outside::raw_keys_were_refused;
use crate::outside::uuid_was_drawn;
use crate::outside::word_was_drawn;
use crate::task::ResolvedView;
use crate::text::ascii_text;
use crate::text::decimal;
use crate::text::lemma_first_place_is;
use crate::text::lines_of;
use crate::text::lowered;
use crate::text::starts_with;
use crate::text::strip_all;
use crate::text::trim_end;
use crate::text::trim_start;
use crate::text::trimmed;
use crate::text::utf8_error_text;
use crate::text::white_space;

verus! {

/// The text stands on one line: it holds no line feed, and no carriage return at its end.
pub open spec fn on_one_line(text: Seq<char>) -> bool {
    &&& forall|i: int| 0 <= i < text.len() ==> text[i] != '\n'
    &&& text.len() > 0 ==> text.last() != '\r'
}

proof fn lemma_decimal_on_one_line(n: nat)
    ensures
        on_one_line(decimal(n)),
{
    lemma_decimal(n);
}

proof fn lemma_joined_on_one_line(a: Seq<char>, b: Seq<char>)
    requires
        on_one_line(a),
        on_one_line(b),
    ensures
        on_one_line(a + b),
{
    let all = a + b;
    assert forall|i: int| 0 <= i < all.len() implies all[i] != '\n' by {
        if i < a.len() {
            assert(all[i] == a[i]);
        } else {
            assert(all[i] == b[i - a.len()]);
        }
    }
    if b.len() > 0 {
        assert(all.last() == b.last());
    } else {
        assert(all =~= a);
    }
}

proof fn lemma_humanized_on_one_line(secs: nat)
    ensures
        on_one_line(humanized(secs)),
{
    reveal_strlit("h");
    reveal_strlit("m");
    reveal_strlit("s");
    reveal_strlit("h0m0s");
    let h = decimal(secs / 3600);
    let m = decimal(secs % 3600 / 60);
    let s = decimal(secs % 60);
    lemma_decimal_on_one_line(secs / 3600);
    lemma_decimal_on_one_line(secs % 3600 / 60);
    lemma_decimal_on_one_line(secs % 60);
    lemma_joined_on_one_line(h, "h"@);
    lemma_joined_on_one_line(h, "h0m0s"@);
    lemma_joined_on_one_line(h + "h"@, m);
    lemma_joined_on_one_line(h + "h"@ + m, "m"@);
    lemma_joined_on_one_line(h + "h"@ + m + "m"@, s);
    lemma_joined_on_one_line(h + "h"@ + m + "m"@ + s, "s"@);
    lemma_joined_on_one_line(m, "m"@);
    lemma_joined_on_one_line(m + "m"@, s);
    lemma_joined_on_one_line(m + "m"@ + s, "s"@);
    lemma_joined_on_one_line(s, "s"@);
}

/// Law: a client that is given a name over plain TCP reads four lines: its address, the full name,
/// how long names live, and when this one expires.
pub proof fn law_plain_client_reads_its_name(r: ResolvedView, ttl_secs: nat)
    requires
        on_one_line(ipv6_text(r.entry.value)),
        on_one_line(r.dns_name),
        on_one_line(rfc3339_text(r.entry.expires)),
    ensures
        lines_of(registered_text(r, ttl_secs)) == seq![
            "Address: "@ + ipv6_text(r.entry.value),
            "DNS Name: "@ + r.dns_name,
            "Valid for "@ + humanized(ttl_secs),
            "Expires "@ + rfc3339_text(r.entry.expires),
        ],
{
    reveal_strlit("Address: ");
    reveal_strlit("\nDNS Name: ");
    reveal_strlit("DNS Name: ");
    reveal_strlit("\nValid for ");
    reveal_strlit("Valid for ");
    reveal_strlit("\nExpires ");
    reveal_strlit("Expires ");
    reveal_strlit("\n");
    lemma_humanized_on_one_line(ttl_secs);
    let end = seq!['\n'];
    let none = Seq::<char>::empty();
    let address = "Address: "@ + ipv6_text(r.entry.value);
    let name = "DNS Name: "@ + r.dns_name;
    let valid = "Valid for "@ + humanized(ttl_secs);
    let expires = "Expires "@ + rfc3339_text(r.entry.expires);
    lemma_joined_on_one_line("Address: "@, ipv6_text(r.entry.value));
    lemma_joined_on_one_line("DNS Name: "@, r.dns_name);
    lemma_joined_on_one_line("Valid for "@, humanized(ttl_secs));
    lemma_joined_on_one_line("Expires "@, rfc3339_text(r.entry.expires));
    let last = expires + end + none;
    let third = valid + end + last;
    let second = name + end + third;
    assert(registered_text(r, ttl_secs) =~= address + end + second);
    lemma_line(expires, none);
    lemma_line(valid, last);
    lemma_line(name, third);
    lemma_line(address, second);
    assert(lines_of(none) =~= Seq::<Seq<char>>::empty());
    assert(lines_of(registered_text(r, ttl_secs)) =~= seq![address, name, valid, expires]);
}

/// Law: a client over HTTP is told its own address and how long names live, and, exactly where it
/// has a name, the full name and when it expires.
pub proof fn law_web_client_is_told_its_name(
    ttl_secs: nat,
    address: Seq<u8>,
    found: Option<ResolvedView>,
)
    ensures
        ({
            let info = info_of(ttl_secs, address, found);
            &&& info.address == ipv6_text(address)
            &&& info.ttl == humanized(ttl_secs)
            &&& info.has_dns == (found is Some)
            &&& info.dns_name is Some <==> found is Some
            &&& info.expires is Some <==> found is Some
            &&& found matches Some(r) ==> info.dns_name == Some(r.dns_name) && info.expires
                == Some(rfc3339_text(r.entry.expires))
        }),
{
}

/// Law: the page has the same values: whether there is a name, the time to live, the address, and
/// the name and its expiration where they are known.
pub proof fn law_page_shows_what_is_told(info: InfoView, message: Seq<char>)
    requires
        info.dns_name is Some <==> info.has_dns,
        info.expires is Some <==> info.has_dns,
    ensures
        top_fields(Ok(info)) == seq![("OK"@, ValueView::Flag(true))],
        top_fields(Err(message)) == seq![
            ("OK"@, ValueView::Flag(false)),
            ("Err"@, ValueView::Text(message)),
        ],
        ({
            let fields = res_fields(info);
            &&& fields.len() == if info.has_dns {
                5int
            } else {
                3
            }
            &&& fields[0] == ("HasDNS"@, ValueView::Flag(info.has_dns))
            &&& fields[1] == ("TTL"@, ValueView::Text(info.ttl))
            &&& fields[2] == ("Address"@, ValueView::Text(info.address))
            &&& info.has_dns ==> fields[3] == ("DNSName"@, ValueView::Text(info.dns_name->0))
            &&& info.has_dns ==> fields[4] == ("Expires"@, ValueView::Text(info.expires->0))
        }),
{
}

/// The text is white space alone.
pub open spec fn blank(text: Seq<char>) -> bool {
    forall|i: int| 0 <= i < text.len() ==> white_space(#[trigger] text[i])
}

/// The text does not begin or end with white space.
pub open spec fn tight(text: Seq<char>) -> bool {
    text.len() > 0 ==> !white_space(text[0]) && !white_space(text.last())
}

proof fn lemma_trim_start(before: Seq<char>, text: Seq<char>)
    requires
        blank(before),
        text.len() > 0,
        !white_space(text[0]),
    ensures
        trim_start(before + text) == text,
    decreases before.len(),
{
    let all = before + text;
    if before.len() > 0 {
        assert(all[0] == before[0]);
        assert(all.drop_first() =~= before.drop_first() + text);
        assert forall|i: int| 0 <= i < before.drop_first().len() implies white_space(
            #[trigger] before.drop_first()[i],
        ) by {
            assert(before.drop_first()[i] == before[i + 1]);
        }
        lemma_trim_start(before.drop_first(), text);
    } else {
        assert(all =~= text);
    }
}

proof fn lemma_trim_end(text: Seq<char>, after: Seq<char>)
    requires
        blank(after),
        text.len() > 0,
        !white_space(text.last()),
    ensures
        trim_end(text + after) == text,
    decreases after.len(),
{
    let all = text + after;
    if after.len() > 0 {
        assert(all.last() == after.last());
        assert(after[after.len() - 1] == after.last());
        assert(all.drop_last() =~= text + after.drop_last());
        assert forall|i: int| 0 <= i < after.drop_last().len() implies white_space(
            #[trigger] after.drop_last()[i],
        ) by {
            assert(after.drop_last()[i] == after[i]);
        }
        lemma_trim_end(text, after.drop_last());
    } else {
        assert(all =~= text);
    }
}

/// Law: white space is taken off both ends of a text, and nothing else.
pub proof fn law_white_space_is_trimmed(before: Seq<char>, text: Seq<char>, after: Seq<char>)
    requires
        blank(before),
        blank(after),
        tight(text),
        text.len() > 0,
    ensures
        trimmed(before + text + after) == text,
{
    let rest = text + after;
    assert(before + text + after =~= before + rest);
    assert(rest[0] == text[0]);
    lemma_trim_start(before, rest);
    lemma_trim_end(text, after);
}

/// Law: of the addresses that a request was forwarded for, the first counts, whatever white space
/// is around it and whatever follows behind a comma.
pub proof fn law_first_forwarded_address_counts(
    before: Seq<char>,
    address: Seq<char>,
    after: Seq<char>,
    rest: Seq<char>,
)
    requires
        blank(before),
        blank(after),
        tight(address),
        address.len() > 0,
        forall|i: int| 0 <= i < address.len() ==> address[i] != ',',
    ensures
        first_forwarded(before + address + after) == address,
        first_forwarded(before + address + after + seq![','] + rest) == address,
{
    let first = before + address + after;
    assert forall|i: int| 0 <= i < first.len() implies first[i] != ',' by {
        if i < before.len() {
            assert(white_space(before[i]));
        } else if i < before.len() + address.len() {
            assert(first[i] == address[i - before.len()]);
        } else {
            assert(white_space(after[i - before.len() - address.len()]));
        }
    }
    law_white_space_is_trimmed(before, address, after);
    lemma_first_place_is(first, ',', first.len() as int);
    assert(first.take(first.len() as int) =~= first);
    let all = first + seq![','] + rest;
    assert forall|i: int| 0 <= i < first.len() implies all[i] != ',' by {
        assert(all[i] == first[i]);
    }
    lemma_first_place_is(all, ',', first.len() as int);
    assert(all.take(first.len() as int) =~= first);
}

/// Law: the words of a list are its lines that are not empty.
pub proof fn law_words_are_the_lines_of_the_list(list: Seq<char>, word: Seq<char>)
    ensures
        words_of(list).contains(word) <==> lines_of(list).contains(word) && word.len() > 0,
{
    lemma_filtered(lines_of(list), word);
}

proof fn lemma_filtered(lines: Seq<Seq<char>>, word: Seq<char>)
    ensures
        lines.filter(|line: Seq<char>| line.len() > 0).contains(word) <==> lines.contains(word)
            && word.len() > 0,
    decreases lines.len(),
{
    reveal(Seq::filter);
    let keep = |line: Seq<char>| line.len() > 0;
    let kept = lines.filter(keep);
    if lines.len() > 0 {
        let front = lines.drop_last();
        let before = front.filter(keep);
        lemma_filtered(front, word);
        if before.contains(word) {
            let i = choose|i: int| 0 <= i < before.len() && before[i] == word;
            assert(kept[i] == word);
        }
        if kept.contains(word) {
            let i = choose|i: int| 0 <= i < kept.len() && kept[i] == word;
            if i < before.len() {
                assert(before[i] == word);
            } else {
                assert(lines[lines.len() - 1] == word);
            }
        }
        if front.contains(word) {
            let i = choose|i: int| 0 <= i < front.len() && front[i] == word;
            assert(lines[i] == word);
        }
        if lines.contains(word) {
            let i = choose|i: int| 0 <= i < lines.len() && lines[i] == word;
            if i < front.len() {
                assert(front[i] == word);
            } else if word.len() > 0 {
                assert(kept.last() == word);
                assert(kept[kept.len() - 1] == word);
            }
        }
    }
}

/// Law: a provider with words gives one of them that was drawn at random.
pub proof fn law_words_are_drawn(words: Seq<Seq<char>>, id: Seq<char>)
    requires
        word_offered(words, id),
        words.len() > 0,
    ensures
        words.contains(id),
        word_was_drawn(words, id),
{
}

/// Law: a random id holds the first digits of a UUID that was drawn at random: as many as were
/// asked for, or all 32.
pub proof fn law_random_ids_begin_a_uuid(id_len: usize, id: Seq<char>) -> (digits: Seq<char>)
    requires
        random_offered(id_len, id),
    ensures
        uuid_was_drawn(digits),
        digits.len() == 32,
        id.len() == if id_len < 32 {
            id_len as int
        } else {
            32
        },
        forall|i: int| 0 <= i < id.len() ==> #[trigger] id[i] == digits[i],
{
    choose|digits: Seq<char>| #[trigger]
        uuid_was_drawn(digits) && digits.len() == 32 && id == first_digits(digits, id_len)
}

/// Law: the first digits are a beginning of all digits, of the length that was asked for or all.
pub proof fn law_first_digits_are_a_beginning(digits: Seq<char>, id_len: usize)
    ensures
        first_digits(digits, id_len).len() == if id_len < digits.len() {
            id_len as int
        } else {
            digits.len() as int
        },
        forall|i: int|
            0 <= i < first_digits(digits, id_len).len() ==> #[trigger] first_digits(
                digits,
                id_len,
            )[i] == digits[i],
{
}

/// Law: of the lines that begin with a name, the last counts. Its value is what stands behind the
/// name, without white space around it.
pub proof fn law_last_line_of_a_name_counts(
    before: Seq<Seq<char>>,
    name: Seq<char>,
    line: Seq<char>,
    after: Seq<Seq<char>>,
)
    requires
        starts_with(line, name),
        forall|i: int| 0 <= i < after.len() ==> !starts_with(#[trigger] after[i], name),
    ensures
        field(before + seq![line] + after, name) == Some(trimmed(strip_all(line, name))),
        field(after, name) is None,
    decreases after.len(),
{
    let all = before + seq![line] + after;
    if after.len() == 0 {
        assert(all.last() == line);
    } else {
        let front = after.drop_last();
        assert forall|i: int| 0 <= i < front.len() implies !starts_with(
            #[trigger] front[i],
            name,
        ) by {
            assert(front[i] == after[i]);
        }
        law_last_line_of_a_name_counts(before, name, line, front);
        assert(all.last() == after[after.len() - 1]);
        assert(all.drop_last() =~= before + seq![line] + front);
    }
}

/// Law: a configured key that holds two keys is loaded with the public key that it holds. A
/// private key of 32 octets needs that public key to belong to it; any other is a document, which
/// tells the key under which signatures verify. Loading fails only where the reader refused them.
pub proof fn law_configured_key_is_loaded(
    key: Seq<char>,
    private: Seq<u8>,
    public: Seq<u8>,
    result: Result<SignerView, KeyFault>,
)
    requires
        keys_of(key) == Ok::<(Seq<u8>, Seq<u8>), KeyFault>((private, public)),
        loads_as(key, result),
    ensures
        result matches Ok(signer) ==> {
            &&& signer.public_key == public
            &&& private.len() == 32 ==> {
                &&& signer.verifying_key == seq![4u8] + public
                &&& raw_keys_match(private, seq![4u8] + public)
            }
            &&& private.len() != 32 ==> pkcs8_public_key(private) == Some(signer.verifying_key)
        },
        result is Err ==> if private.len() == 32 {
            raw_keys_were_refused(private, seq![4u8] + public)
        } else {
            document_was_refused(private)
        },
{
}

/// Law: what is wrong with the text of a key. The private key is looked at before the public one,
/// and whether it is there before what it holds.
pub proof fn law_what_is_wrong_with_a_key_text(text: Seq<char>)
    ensures
        ({
            let private = field(lines_of(text), "PrivateKey:"@);
            let public = field(lines_of(text), "PublicKey:"@);
            &&& private is None ==> keys_in(text) == Err::<(Seq<u8>, Seq<u8>), KeyFault>(
                KeyFault::MissingPrivateKey,
            )
            &&& private matches Some(p) ==> {
                &&& base64_decoding(p) matches Err(message) ==> keys_in(text) == Err::<
                    (Seq<u8>, Seq<u8>),
                    KeyFault,
                >(KeyFault::Base64(message))
                &&& base64_decoding(p) is Ok && public is None ==> keys_in(text) == Err::<
                    (Seq<u8>, Seq<u8>),
                    KeyFault,
                >(KeyFault::MissingPublicKey)
                &&& base64_decoding(p) is Ok && public is Some ==> match base64_decoding(
                    public->0,
                ) {
                    Err(message) => keys_in(text) == Err::<(Seq<u8>, Seq<u8>), KeyFault>(
                        KeyFault::Base64(message),
                    ),
                    Ok(octets) => keys_in(text) == Ok::<(Seq<u8>, Seq<u8>), KeyFault>(
                        (base64_decoding(p)->Ok_0, octets),
                    ),
                }
            }
        }),
{
}

/// Law: a configured key is base64 of a text in UTF-8, and holds the keys of that text.
pub proof fn law_configured_key_is_the_text_in_base64(key: Seq<char>, text: Seq<char>)
    ensures
        base64_decoding(key) matches Err(message) ==> keys_of(key) == Err::<
            (Seq<u8>, Seq<u8>),
            KeyFault,
        >(KeyFault::Base64(message)),
        base64_decoding(key) matches Ok(octets) ==> {
            &&& !valid_utf8(octets) ==> keys_of(key) == Err::<(Seq<u8>, Seq<u8>), KeyFault>(
                KeyFault::NotText(utf8_error_text(octets)),
            )
            &&& octets == encode_utf8(text) ==> keys_of(key) == keys_in(text)
        },
{
    encode_utf8_valid_utf8(text);
    encode_utf8_decode_utf8(text);
}

/// Law: a text is its lines, each with a line feed behind it. A last line may lack it, and a
/// carriage return before a line feed belongs to it.
pub proof fn law_lines_end_at_line_feeds(line: Seq<char>, rest: Seq<char>)
    requires
        forall|i: int| 0 <= i < line.len() ==> line[i] != '\n',
    ensures
        line.len() > 0 ==> lines_of(line) == seq![line],
        line.len() == 0 || line.last() != '\r' ==> lines_of(line + seq!['\n'] + rest) == seq![line]
            + lines_of(rest),
        lines_of(line + seq!['\r', '\n'] + rest) == seq![line] + lines_of(rest),
{
    lemma_first_place_is(line, '\n', line.len() as int);
    if line.len() == 0 || line.last() != '\r' {
        lemma_line(line, rest);
    }
    let all = line + seq!['\r', '\n'] + rest;
    let longer = line.push('\r');
    assert forall|i: int| 0 <= i < longer.len() implies all[i] != '\n' by {
        assert(all[i] == longer[i]);
    }
    lemma_first_place_is(all, '\n', longer.len() as int);
    assert(all.take(longer.len() as int) =~= longer);
    assert(longer.drop_last() =~= line);
    assert(all.skip(longer.len() as int + 1) =~= rest);
}

/// Law: a prefix is taken off as often as it stands at the start, and nothing else.
pub proof fn law_prefixes_are_taken_off(prefix: Seq<char>, rest: Seq<char>)
    requires
        prefix.len() > 0,
    ensures
        strip_all(prefix + rest, prefix) == strip_all(rest, prefix),
        !starts_with(rest, prefix) ==> strip_all(rest, prefix) == rest,
        starts_with(prefix + rest, prefix),
{
    assert((prefix + rest).take(prefix.len() as int) =~= prefix);
    assert((prefix + rest).skip(prefix.len() as int) =~= rest);
}

/// Law: an ASCII text is made small letter by letter.
pub proof fn law_ascii_text_is_made_small(text: Seq<char>, i: int)
    requires
        ascii_text(text),
        0 <= i < text.len(),
    ensures
        lowered(text).len() == text.len(),
        'A' <= text[i] <= 'Z' ==> lowered(text)[i] as int == text[i] as int + 32,
        !('A' <= text[i] <= 'Z') ==> lowered(text)[i] == text[i],
{
}

} // verus!
