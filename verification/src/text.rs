//! Text as a sequence of characters: trimming, lines, prefixes and decimal numbers.
use vstd::prelude::*;

verus! {

/// `String::push` adds one character at the end.
pub assume_specification[ String::push ](s: &mut String, c: char)
    ensures
        final(s)@ == old(s)@.push(c),
;

/// The characters with the Unicode property White_Space.
pub open spec fn white_space(c: char) -> bool {
    let u = c as u32;
    ||| 0x9 <= u <= 0xd
    ||| u == 0x20
    ||| u == 0x85
    ||| u == 0xa0
    ||| u == 0x1680
    ||| 0x2000 <= u <= 0x200a
    ||| u == 0x2028
    ||| u == 0x2029
    ||| u == 0x202f
    ||| u == 0x205f
    ||| u == 0x3000
}

/// `char::is_whitespace` tells whether a character has the Unicode property White_Space.
pub assume_specification[ char::is_whitespace ](c: char) -> (r: bool)
    ensures
        r == white_space(c),
;

/// `s` without the white space it starts with.
pub open spec fn trim_start(s: Seq<char>) -> Seq<char>
    decreases s.len(),
{
    if s.len() > 0 && white_space(s[0]) {
        trim_start(s.drop_first())
    } else {
        s
    }
}

/// `s` without the white space it ends with.
pub open spec fn trim_end(s: Seq<char>) -> Seq<char>
    decreases s.len(),
{
    if s.len() > 0 && white_space(s.last()) {
        trim_end(s.drop_last())
    } else {
        s
    }
}

/// `s` without the white space at its two ends.
pub open spec fn trimmed(s: Seq<char>) -> Seq<char> {
    trim_end(trim_start(s))
}

/// `s` begins with `prefix`.
pub open spec fn starts_with(s: Seq<char>, prefix: Seq<char>) -> bool {
    prefix.len() <= s.len() && s.take(prefix.len() as int) == prefix
}

/// `s` with `prefix` taken off its start as often as it stands there.
pub open spec fn strip_all(s: Seq<char>, prefix: Seq<char>) -> Seq<char>
    decreases s.len(),
{
    if prefix.len() > 0 && starts_with(s, prefix) {
        strip_all(s.skip(prefix.len() as int), prefix)
    } else {
        s
    }
}

/// The place of the first `c` in `s`, or the length of `s` where there is none.
pub open spec fn first_place(s: Seq<char>, c: char) -> int
    decreases s.len(),
{
    if s.len() == 0 || s[0] == c {
        0
    } else {
        1 + first_place(s.drop_first(), c)
    }
}

/// A line without the carriage return in front of its line feed.
pub open spec fn without_return(line: Seq<char>) -> Seq<char> {
    if line.len() > 0 && line.last() == '\r' {
        line.drop_last()
    } else {
        line
    }
}

/// The lines of `s`: each ends at a line feed, or a carriage return and a line feed, which do
/// not belong to it; the last line may end with the text instead.
pub open spec fn lines_of(s: Seq<char>) -> Seq<Seq<char>>
    decreases s.len(),
    via lines_of_shrinks
{
    let end = first_place(s, '\n');
    if s.len() == 0 {
        seq![]
    } else if end >= s.len() {
        seq![s]
    } else {
        seq![without_return(s.take(end))] + lines_of(s.skip(end + 1))
    }
}

#[via_fn]
proof fn lines_of_shrinks(s: Seq<char>) {
    lemma_first_place(s, '\n');
}

/// The decimal digits of `n`, without leading zeros.
pub open spec fn decimal(n: nat) -> Seq<char>
    decreases n,
{
    if n < 10 {
        seq![digit(n)]
    } else {
        decimal(n / 10).push(digit(n % 10))
    }
}

/// The digit that stands for `d`, below ten.
pub open spec fn digit(d: nat) -> char {
    (48 + d) as char
}

pub proof fn lemma_first_place(s: Seq<char>, c: char)
    ensures
        0 <= first_place(s, c) <= s.len(),
        forall|i: int| 0 <= i < first_place(s, c) ==> s[i] != c,
        first_place(s, c) < s.len() ==> s[first_place(s, c)] == c,
    decreases s.len(),
{
    if s.len() > 0 && s[0] != c {
        lemma_first_place(s.drop_first(), c);
        assert forall|i: int| 0 <= i < first_place(s, c) implies s[i] != c by {
            if i > 0 {
                assert(s[i] == s.drop_first()[i - 1]);
            }
        }
    }
}

/// The first place is the only one with no earlier `c` and a `c` (or the end) at it.
pub proof fn lemma_first_place_is(s: Seq<char>, c: char, at: int)
    requires
        0 <= at <= s.len(),
        forall|i: int| 0 <= i < at ==> s[i] != c,
        at < s.len() ==> s[at] == c,
    ensures
        first_place(s, c) == at,
{
    lemma_first_place(s, c);
    if first_place(s, c) < at {
        assert(s[first_place(s, c)] == c);
    }
    if at < first_place(s, c) {
        assert(s[at] == c);
    }
}

/// The characters of `s`.
pub fn chars_of(s: &str) -> (r: Vec<char>)
    ensures
        r@ == s@,
{
    let mut r: Vec<char> = Vec::new();
    for c in it: s.chars()
        invariant
            r@ == it.seq().take(it.index()),
            it.seq() == s@,
    {
        r.push(c);
    }
    r
}

/// The text made of `chars`.
pub fn string_of(chars: &[char]) -> (r: String)
    ensures
        r@ == chars@,
{
    let mut r = String::new();
    let mut i: usize = 0;
    while i < chars.len()
        invariant
            i <= chars@.len(),
            r@ == chars@.take(i as int),
        decreases chars.len() - i,
    {
        r.push(chars[i]);
        assert(chars@.take(i + 1) =~= chars@.take(i as int).push(chars@[i as int]));
        i += 1;
    }
    assert(chars@.take(chars@.len() as int) =~= chars@);
    r
}

/// Appends `more` to `out`.
pub fn push_text(out: &mut String, more: &str)
    ensures
        final(out)@ == old(out)@ + more@,
{
    out.append(more);
}

/// The text `a` followed by `b`.
pub fn joined(a: &str, b: &str) -> (r: String)
    ensures
        r@ == a@ + b@,
{
    let mut r = String::new();
    r.append(a);
    r.append(b);
    assert(r@ =~= a@ + b@);
    r
}

/// Takes the white space off both ends.
pub fn trim(s: &[char]) -> (r: Vec<char>)
    ensures
        r@ == trimmed(s@),
{
    let mut from: usize = 0;
    assert(s@.skip(0) =~= s@);
    while from < s.len() && s[from].is_whitespace()
        invariant
            from <= s@.len(),
            trim_start(s@) == trim_start(s@.skip(from as int)),
        decreases s.len() - from,
    {
        assert(s@.skip(from as int).drop_first() =~= s@.skip(from + 1));
        from += 1;
    }
    let mut to: usize = s.len();
    assert(s@.subrange(from as int, to as int) =~= s@.skip(from as int));
    while to > from && s[to - 1].is_whitespace()
        invariant
            from <= to <= s@.len(),
            trimmed(s@) == trim_end(s@.subrange(from as int, to as int)),
        decreases to,
    {
        assert(s@.subrange(from as int, to as int).drop_last() =~= s@.subrange(
            from as int,
            to - 1,
        ));
        to -= 1;
    }
    vstd::slice::slice_to_vec(vstd::slice::slice_subrange(s, from, to))
}

/// Tells whether `s` begins with `prefix` from the place `at` on.
pub fn starts_at(s: &[char], at: usize, prefix: &[char]) -> (r: bool)
    requires
        at <= s@.len(),
    ensures
        r == starts_with(s@.skip(at as int), prefix@),
{
    if s.len() - at < prefix.len() {
        return false;
    }
    let ghost rest = s@.skip(at as int);
    let mut i: usize = 0;
    while i < prefix.len()
        invariant
            at <= s@.len(),
            prefix.len() <= s.len() - at,
            rest == s@.skip(at as int),
            i <= prefix@.len(),
            forall|k: int| 0 <= k < i ==> rest[k] == #[trigger] prefix@[k],
        decreases prefix.len() - i,
    {
        if s[at + i] != prefix[i] {
            assert(rest[i as int] != prefix@[i as int]);
            assert(rest.take(prefix@.len() as int)[i as int] == rest[i as int]);
            return false;
        }
        i += 1;
    }
    assert(rest.take(prefix@.len() as int) =~= prefix@);
    true
}

/// Takes `prefix` off the start of `s` as often as it stands there.
pub fn strip_prefixes(s: &[char], prefix: &[char]) -> (r: Vec<char>)
    ensures
        r@ == strip_all(s@, prefix@),
{
    let mut at: usize = 0;
    assert(s@.skip(0) =~= s@);
    if prefix.len() > 0 {
        while starts_at(s, at, prefix)
            invariant
                at <= s@.len(),
                prefix@.len() > 0,
                strip_all(s@, prefix@) == strip_all(s@.skip(at as int), prefix@),
            decreases s.len() - at,
        {
            assert(s@.skip(at as int).skip(prefix@.len() as int) =~= s@.skip(
                at + prefix@.len(),
            ));
            at += prefix.len();
        }
    }
    let r = vstd::slice::slice_to_vec(vstd::slice::slice_subrange(s, at, s.len()));
    assert(r@ =~= s@.skip(at as int));
    r
}

/// What each of the texts in `v` holds.
pub open spec fn texts(v: Seq<Vec<char>>) -> Seq<Seq<char>> {
    v.map_values(|t: Vec<char>| t@)
}

/// Splits a text into its lines.
pub fn lines(s: &[char]) -> (r: Vec<Vec<char>>)
    ensures
        texts(r@) == lines_of(s@),
{
    let mut r: Vec<Vec<char>> = Vec::new();
    let mut at: usize = 0;
    assert(s@.skip(0) =~= s@);
    assert(texts(r@) + lines_of(s@.skip(0)) =~= lines_of(s@));
    while at < s.len()
        invariant
            at <= s@.len(),
            texts(r@) + lines_of(s@.skip(at as int)) == lines_of(s@),
        decreases s.len() - at,
    {
        let ghost rest = s@.skip(at as int);
        let mut end: usize = at;
        while end < s.len() && s[end] != '\n'
            invariant
                at <= end <= s@.len(),
                rest == s@.skip(at as int),
                forall|k: int| 0 <= k < end - at ==> rest[k] != '\n',
            decreases s.len() - end,
        {
            end += 1;
        }
        proof {
            lemma_first_place_is(rest, '\n', end - at);
        }
        let ghost before = texts(r@);
        if end == s.len() {
            let line: Vec<char> = vstd::slice::slice_to_vec(
                vstd::slice::slice_subrange(s, at, end),
            );
            r.push(line);
            at = end;
            proof {
                assert(line@ =~= rest);
                assert(texts(r@) =~= before.push(rest));
                assert(lines_of(s@.skip(at as int)) =~= Seq::<Seq<char>>::empty());
                assert(texts(r@) + lines_of(s@.skip(at as int)) =~= before + lines_of(rest));
            }
        } else {
            let stop: usize = if end > at && s[end - 1] == '\r' {
                end - 1
            } else {
                end
            };
            let line: Vec<char> = vstd::slice::slice_to_vec(
                vstd::slice::slice_subrange(s, at, stop),
            );
            r.push(line);
            let ghost from = at;
            at = end + 1;
            proof {
                let whole = rest.take(end - from);
                assert(line@ =~= without_return(whole));
                assert(texts(r@) =~= before.push(line@));
                assert(rest.skip(end - from + 1) =~= s@.skip(at as int));
                assert(texts(r@) + lines_of(s@.skip(at as int)) =~= before + lines_of(rest));
            }
        }
    }
    assert(lines_of(s@.skip(at as int)) =~= Seq::<Seq<char>>::empty());
    assert(texts(r@) =~= lines_of(s@));
    r
}

/// Appends the decimal digits of `n` to `out`.
pub fn push_decimal(out: &mut String, n: u64)
    ensures
        final(out)@ == old(out)@ + decimal(n as nat),
    decreases n,
{
    let last: u8 = (n % 10) as u8;
    if n >= 10 {
        push_decimal(out, n / 10);
    }
    out.push((48 + last) as char);
    proof {
        assert((48 + last) as char == digit((n % 10) as nat));
    }
    assert(out@ =~= old(out)@ + decimal(n as nat));
}

/// The message of `String::from_utf8` about octets that are not UTF-8.
pub uninterp spec fn utf8_error_text(octets: Seq<u8>) -> Seq<char>;

/// Calls `String::from_utf8`, which reads octets as UTF-8 and refuses those that are not, and
/// gives its error as text. The message depends on the octets alone.
#[verifier::external_body]
pub(crate) fn text_from_utf8(octets: Vec<u8>) -> (r: Result<String, String>)
    ensures
        r is Ok <==> vstd::utf8::valid_utf8(octets@),
        r matches Ok(text) ==> text@ == vstd::utf8::decode_utf8(octets@),
        r matches Err(message) ==> message@ == utf8_error_text(octets@),
{
    String::from_utf8(octets).map_err(|e| e.to_string())
}

/// All characters are ASCII.
pub open spec fn ascii_text(text: Seq<char>) -> bool {
    vstd::utf8::is_ascii_chars(text)
}

/// An ASCII letter made small, any other character as it is.
pub open spec fn lower_char(c: char) -> char {
    if 'A' <= c <= 'Z' {
        (c as u32 + 32) as char
    } else {
        c
    }
}

/// A text with its ASCII letters made small.
pub open spec fn lower_chars(text: Seq<char>) -> Seq<char> {
    text.map_values(|c: char| lower_char(c))
}

/// What `str::to_lowercase` makes of a text.
pub uninterp spec fn lowercase_text(text: Seq<char>) -> Seq<char>;

/// A text in small letters: in ASCII each letter for itself, otherwise by the rules of Unicode.
pub open spec fn lowered(text: Seq<char>) -> Seq<char> {
    if ascii_text(text) {
        lower_chars(text)
    } else {
        lowercase_text(text)
    }
}

/// `str::to_lowercase` makes ASCII letters small and goes by the rules of Unicode for others.
pub assume_specification[ str::to_lowercase ](text: &str) -> (r: String)
    ensures
        ascii_text(text@) ==> r@ == lowered(text@),
        !ascii_text(text@) ==> r@ == lowercase_text(text@),
;

} // verus!
