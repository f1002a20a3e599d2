//! The settings of the server, and durations as they are written in them.
use std::time::Duration;

use vstd::arithmetic::div_mod::lemma_add_mod_noop;
use vstd::prelude::*;

use crate::clock::duration_nanos;
use crate::clock::duration_secs;
use crate::clock::humanized;
use crate::text::chars_of;
use crate::text::decimal;
use crate::text::digit;
use crate::text::joined;
use crate::text::string_of;

verus! {

/// The settings of the whole server.
#[derive(Debug, Clone)]
pub struct Config {
    pub sentry_dsn: Option<String>,
    pub store: StoreConfig,
    pub dns: DnsConfig,
    pub net: NetConfig,
    pub http: HttpConfig,
    pub provider: ProviderConfig,
}

/// The settings of the store: the domain under which names are given out, how long a name lives,
/// and the file of the database.
#[derive(Debug)]
pub struct StoreConfig {
    pub domain: String,
    pub ttl: Duration,
    pub file: String,
}

impl Clone for StoreConfig {
    fn clone(&self) -> (r: Self)
        ensures
            r.domain@ == self.domain@,
            r.ttl == self.ttl,
            r.file@ == self.file@,
    {
        StoreConfig { domain: self.domain.clone(), ttl: self.ttl, file: self.file.clone() }
    }
}

/// The settings of the DNS server: where it listens, the name servers of the zone, the mailbox of
/// the one responsible, and the signing key.
#[derive(Debug, Clone)]
pub struct DnsConfig {
    pub port: u16,
    pub address: Option<String>,
    pub ns: Vec<String>,
    pub mname: String,
    pub dnssec_key: Option<String>,
}

/// The settings of the plain TCP server.
#[derive(Debug, Clone)]
pub struct NetConfig {
    pub port: u16,
    pub address: Option<String>,
}

/// The settings of the HTTP server.
#[derive(Debug, Clone)]
pub struct HttpConfig {
    pub port: u16,
    pub address: Option<String>,
}

/// The settings of the id providers.
#[derive(Debug, Clone)]
pub struct ProviderConfig {
    pub wordlist: WordlistProviderConfig,
    pub random: RandomProviderConfig,
}

/// The settings of the provider that takes ids from a list of words.
#[derive(Debug, Clone, Copy, PartialEq, Eq, Structural)]
pub struct WordlistProviderConfig {
    pub enable: bool,
}

/// The settings of the provider that makes ids at random.
#[derive(Debug, Clone, Copy, PartialEq, Eq, Structural)]
pub struct RandomProviderConfig {
    pub enable: bool,
    pub id_len: usize,
}

impl Default for WordlistProviderConfig {
    /// Without settings the provider is off.
    fn default() -> (r: Self)
        ensures
            r == (WordlistProviderConfig { enable: false }),
    {
        WordlistProviderConfig { enable: false }
    }
}

impl Default for RandomProviderConfig {
    /// Without settings the provider is off and its ids are empty.
    fn default() -> (r: Self)
        ensures
            r == (RandomProviderConfig { enable: false, id_len: 0 }),
    {
        RandomProviderConfig { enable: false, id_len: 0 }
    }
}

/// How long a name lives unless it is set: two days.
pub fn default_ttl() -> (r: Duration)
    ensures
        duration_secs(r) == 48 * 3600,
        duration_nanos(r) == 0,
{
    Duration::from_secs(48 * 3600)
}

/// The port of the DNS server unless it is set.
pub fn default_dns_port() -> (r: u16)
    ensures
        r == 5354,
{
    5354
}

/// The port of the plain TCP server unless it is set.
pub fn default_net_port() -> (r: u16)
    ensures
        r == 9999,
{
    9999
}

/// The port of the HTTP server unless it is set.
pub fn default_http_port() -> (r: u16)
    ensures
        r == 8053,
{
    8053
}

/// The length of random ids where the random provider is set up without one.
pub fn default_id_len() -> (r: usize)
    ensures
        r == 3,
{
    3
}

/// An ASCII digit.
pub open spec fn is_digit(c: char) -> bool {
    '0' <= c <= '9'
}

/// The number that decimal digits write.
pub open spec fn number(digits: Seq<char>) -> nat
    decreases digits.len(),
{
    if digits.len() == 0 {
        0
    } else {
        number(digits.drop_last()) * 10 + (digits.last() as nat - 48) as nat
    }
}

/// The seconds in a unit of time, if the letter stands for one.
pub open spec fn unit_secs(unit: char) -> Option<nat> {
    if unit == 'h' {
        Some(3600)
    } else if unit == 'm' {
        Some(60)
    } else if unit == 's' {
        Some(1)
    } else {
        None
    }
}

/// What is wrong with a duration.
pub enum DurationFault {
    /// A unit stands behind no number, or behind one that does not fit in 64 bits.
    Number,
    /// The character is no unit.
    Unit(char),
}

/// The seconds that a text adds to `total`, read from the left, when `digits` were read of the
/// number under way. Digits without a unit at the end count nothing.
pub open spec fn secs_read(text: Seq<char>, digits: Seq<char>, total: nat) -> Result<
    nat,
    DurationFault,
>
    decreases text.len(),
{
    if text.len() == 0 {
        Ok(total)
    } else if is_digit(text[0]) {
        secs_read(text.drop_first(), digits.push(text[0]), total)
    } else if digits.len() == 0 || number(digits) > u64::MAX {
        Err(DurationFault::Number)
    } else {
        match unit_secs(text[0]) {
            Some(unit) => secs_read(
                text.drop_first(),
                seq![],
                total + number(digits) * unit,
            ),
            None => Err(DurationFault::Unit(text[0])),
        }
    }
}

/// The seconds of a duration, written as numbers with the units `h`, `m` and `s`.
pub open spec fn duration_read(text: Seq<char>) -> Result<nat, DurationFault> {
    secs_read(text, seq![], 0)
}

/// Reads a duration. The seconds wrap at 64 bits.
pub fn parse_duration(s: &str) -> (r: Result<Duration, String>)
    ensures
        match duration_read(s@) {
            Ok(secs) => r matches Ok(d) && duration_secs(d) == secs % 0x1_0000_0000_0000_0000
                && duration_nanos(d) == 0,
            Err(DurationFault::Number) => r matches Err(message) && message@
                == "Invalid number in duration: "@ + s@,
            Err(DurationFault::Unit(c)) => r matches Err(message) && message@
                == "Unknown duration unit: "@ + seq![c],
        },
{
    let text: Vec<char> = chars_of(s);
    let mut total: u64 = 0;
    let mut some_digit: bool = false;
    let mut value: Option<u64> = Some(0);
    let ghost mut digits: Seq<char> = seq![];
    let ghost mut sum: nat = 0;
    let mut i: usize = 0;
    assert(text@.skip(0) =~= text@);
    while i < text.len()
        invariant
            i <= text@.len(),
            text@ == s@,
            secs_read(s@, seq![], 0) == secs_read(text@.skip(i as int), digits, sum),
            total == sum % 0x1_0000_0000_0000_0000,
            some_digit == (digits.len() > 0),
            match value {
                Some(v) => v == number(digits),
                None => number(digits) > u64::MAX,
            },
        decreases text.len() - i,
    {
        let c: char = text[i];
        let ghost rest = text@.skip(i as int);
        assert(rest.drop_first() =~= text@.skip(i + 1));
        assert(rest[0] == c);
        if '0' <= c && c <= '9' {
            let d: u64 = (c as u64) - 48;
            proof {
                let more = digits.push(c);
                assert(more.drop_last() =~= digits);
                assert(number(more) == number(digits) * 10 + d);
                digits = more;
            }
            value = match value {
                Some(v) => match v.checked_mul(10) {
                    Some(ten) => ten.checked_add(d),
                    None => None,
                },
                None => None,
            };
            some_digit = true;
        } else {
            let count: u64 = match (some_digit, value) {
                (true, Some(v)) => v,
                _ => {
                    return Err(joined("Invalid number in duration: ", s));
                },
            };
            let unit: u64 = match c {
                'h' => 3600,
                'm' => 60,
                's' => 1,
                _ => {
                    let one: Vec<char> = vec![c];
                    assert(one@ =~= seq![c]);
                    let unit: String = string_of(one.as_slice());
                    return Err(joined("Unknown duration unit: ", unit.as_str()));
                },
            };
            proof {
                lemma_wrapped_sum(sum, total, count, unit);
                sum = sum + number(digits) * (unit as nat);
                digits = seq![];
            }
            total = total.wrapping_add(count.wrapping_mul(unit));
            some_digit = false;
            value = Some(0);
        }
        i += 1;
    }
    Ok(Duration::from_secs(total))
}

proof fn lemma_wrapped_sum(sum: nat, total: u64, count: u64, unit: u64)
    requires
        total == sum % 0x1_0000_0000_0000_0000,
    ensures
        total.wrapping_add(count.wrapping_mul(unit)) == (sum + count * unit)
            % 0x1_0000_0000_0000_0000,
{
    let m: int = 0x1_0000_0000_0000_0000;
    let product: int = count * unit;
    assert(product >= 0) by (nonlinear_arith)
        requires
            product == count * unit,
    ;
    let wrapped: u64 = count.wrapping_mul(unit);
    assert(wrapped == product % m);
    lemma_add_mod_noop(sum as int, product, m);
    assert((total + wrapped) % m == (sum + product) % m);
}

proof fn lemma_number_push(digits: Seq<char>, d: nat)
    requires
        d < 10,
    ensures
        number(digits.push(digit(d))) == number(digits) * 10 + d,
        is_digit(digit(d)),
{
    assert(digits.push(digit(d)).drop_last() =~= digits);
    assert(digit(d) as nat == 48 + d);
}

/// A number is written in digits that read as the number.
pub proof fn lemma_decimal(n: nat)
    ensures
        decimal(n).len() > 0,
        number(decimal(n)) == n,
        forall|i: int| 0 <= i < decimal(n).len() ==> is_digit(#[trigger] decimal(n)[i]),
    decreases n,
{
    if n < 10 {
        lemma_number_push(seq![], n);
        assert(seq![digit(n)] =~= Seq::<char>::empty().push(digit(n)));
        assert(number(Seq::<char>::empty()) == 0);
    } else {
        lemma_decimal(n / 10);
        lemma_number_push(decimal(n / 10), n % 10);
    }
}

/// Digits at the start of a text join the number under way.
proof fn lemma_digits_read(front: Seq<char>, rest: Seq<char>, digits: Seq<char>, total: nat)
    requires
        forall|i: int| 0 <= i < front.len() ==> is_digit(#[trigger] front[i]),
    ensures
        secs_read(front + rest, digits, total) == secs_read(rest, digits + front, total),
    decreases front.len(),
{
    if front.len() == 0 {
        assert(front + rest =~= rest);
        assert(digits + front =~= digits);
    } else {
        let all = front + rest;
        assert(all[0] == front[0]);
        assert(all.drop_first() =~= front.drop_first() + rest);
        lemma_digits_read(front.drop_first(), rest, digits.push(front[0]), total);
        assert(digits.push(front[0]) + front.drop_first() =~= digits + front);
    }
}

/// A number with its unit at the start of a text.
proof fn lemma_part_read(n: nat, unit: char, rest: Seq<char>, total: nat)
    requires
        n <= u64::MAX,
        unit_secs(unit) is Some,
    ensures
        secs_read(decimal(n) + seq![unit] + rest, seq![], total) == secs_read(
            rest,
            seq![],
            total + n * unit_secs(unit)->0,
        ),
{
    lemma_decimal(n);
    let front = decimal(n);
    let after = seq![unit] + rest;
    assert(front + seq![unit] + rest =~= front + after);
    lemma_digits_read(front, after, seq![], total);
    assert(Seq::<char>::empty() + front =~= front);
    assert(after.drop_first() =~= rest);
    assert(after[0] == unit);
    assert(!is_digit(unit));
}

/// Law: hours, minutes and seconds that are written one after the other are read as their sum.
pub proof fn law_duration_is_a_sum(h: nat, m: nat, s: nat)
    requires
        h <= u64::MAX,
        m <= u64::MAX,
        s <= u64::MAX,
    ensures
        duration_read(
            decimal(h) + seq!['h'] + decimal(m) + seq!['m'] + decimal(s) + seq!['s'],
        ) == Ok::<nat, DurationFault>(h * 3600 + m * 60 + s),
{
    let none = Seq::<char>::empty();
    let secs = decimal(s) + seq!['s'] + none;
    let mins = decimal(m) + seq!['m'] + secs;
    let all = decimal(h) + seq!['h'] + mins;
    assert(all =~= decimal(h) + seq!['h'] + decimal(m) + seq!['m'] + decimal(s) + seq!['s']);
    lemma_part_read(h, 'h', mins, 0);
    lemma_part_read(m, 'm', secs, h * 3600);
    lemma_part_read(s, 's', none, h * 3600 + m * 60);
}

/// Law: a duration that was written out is read as the same number of seconds, but for those with
/// whole hours, no whole minute beyond them, and seconds: the seconds are not written.
pub proof fn law_humanized_duration_reads_back(secs: nat)
    requires
        secs <= u64::MAX,
        !(secs >= 3600 && secs % 3600 < 60 && secs % 60 > 0),
    ensures
        duration_read(humanized(secs)) == Ok::<nat, DurationFault>(secs),
{
    reveal_strlit("h");
    reveal_strlit("m");
    reveal_strlit("s");
    reveal_strlit("h0m0s");
    let h = secs / 3600;
    let m = secs % 3600 / 60;
    let s = secs % 60;
    let none = Seq::<char>::empty();
    assert(secs == h * 3600 + m * 60 + s);
    if h > 0 {
        law_duration_is_a_sum(h, m, s);
        assert(decimal(0) =~= seq!['0']);
        assert(humanized(secs) =~= decimal(h) + seq!['h'] + decimal(m) + seq!['m'] + decimal(s)
            + seq!['s']);
    } else if m > 0 {
        let rest = decimal(s) + seq!['s'] + none;
        assert(humanized(secs) =~= decimal(m) + seq!['m'] + rest);
        lemma_part_read(m, 'm', rest, 0);
        lemma_part_read(s, 's', none, m * 60);
    } else {
        assert(humanized(secs) =~= decimal(s) + seq!['s'] + none);
        lemma_part_read(s, 's', none, 0);
    }
}

/// Law: a character that is no unit is refused where a number stands before it.
pub proof fn law_other_units_are_refused(n: nat, unit: char, rest: Seq<char>)
    requires
        n <= u64::MAX,
        !('0' <= unit <= '9'),
        unit != 'h' && unit != 'm' && unit != 's',
    ensures
        duration_read(decimal(n) + seq![unit] + rest) == Err::<nat, DurationFault>(
            DurationFault::Unit(unit),
        ),
{
    lemma_decimal(n);
    let front = decimal(n);
    let after = seq![unit] + rest;
    assert(front + seq![unit] + rest =~= front + after);
    lemma_digits_read(front, after, seq![], 0);
    assert(Seq::<char>::empty() + front =~= front);
    assert(after[0] == unit);
}

/// Law: a unit without a number, or with one that does not fit in 64 bits, is refused.
pub proof fn law_units_need_a_number(n: nat, unit: char, rest: Seq<char>)
    requires
        !('0' <= unit <= '9'),
        n > u64::MAX,
    ensures
        duration_read(seq![unit] + rest) == Err::<nat, DurationFault>(DurationFault::Number),
        duration_read(decimal(n) + seq![unit] + rest) == Err::<nat, DurationFault>(
            DurationFault::Number,
        ),
{
    lemma_decimal(n);
    let front = decimal(n);
    let after = seq![unit] + rest;
    assert(after[0] == unit);
    assert(front + seq![unit] + rest =~= front + after);
    lemma_digits_read(front, after, seq![], 0);
    assert(Seq::<char>::empty() + front =~= front);
}

/// Law: a number without a unit at the end counts nothing.
pub proof fn law_number_without_unit_counts_nothing(n: nat)
    ensures
        duration_read(decimal(n)) == Ok::<nat, DurationFault>(0),
{
    lemma_decimal(n);
    let none = Seq::<char>::empty();
    assert(decimal(n) + none =~= decimal(n));
    lemma_digits_read(decimal(n), none, seq![], 0);
}

/// Law: where whole hours have no whole minute beyond them, the seconds are not written.
pub proof fn law_seconds_beyond_hours_are_not_written(hours: nat, secs: nat)
    requires
        hours > 0,
        secs < 60,
    ensures
        humanized(hours * 3600 + secs) == decimal(hours) + seq!['h', '0', 'm', '0', 's'],
{
    reveal_strlit("h0m0s");
    let total = hours * 3600 + secs;
    assert(total / 3600 == hours && total % 3600 == secs);
    assert(humanized(total) =~= decimal(hours) + seq!['h', '0', 'm', '0', 's']);
}

/// What was read is added to what was read before.
proof fn lemma_total(text: Seq<char>, digits: Seq<char>, total: nat)
    ensures
        secs_read(text, digits, total) == match secs_read(text, digits, 0) {
            Ok(secs) => Ok::<nat, DurationFault>(total + secs),
            Err(fault) => Err(fault),
        },
    decreases text.len(),
{
    if text.len() > 0 {
        let rest = text.drop_first();
        if is_digit(text[0]) {
            lemma_total(rest, digits.push(text[0]), total);
        } else if digits.len() > 0 && number(digits) <= u64::MAX && unit_secs(text[0]) is Some {
            let part = number(digits) * unit_secs(text[0])->0;
            lemma_total(rest, seq![], total + part);
            lemma_total(rest, seq![], part);
        }
    }
}

/// Law: a number with its unit adds its seconds to those of the rest of the text: 3600 for each
/// hour, 60 for each minute and one for each second.
pub proof fn law_parts_of_a_duration_are_added(digits: Seq<char>, unit: char, rest: Seq<char>)
    requires
        digits.len() > 0,
        forall|i: int| 0 <= i < digits.len() ==> '0' <= #[trigger] digits[i] <= '9',
        number(digits) <= u64::MAX,
        unit == 'h' || unit == 'm' || unit == 's',
    ensures
        ({
            let part = number(digits) * if unit == 'h' {
                3600nat
            } else if unit == 'm' {
                60nat
            } else {
                1nat
            };
            duration_read(digits + seq![unit] + rest) == match duration_read(rest) {
                Ok(secs) => Ok::<nat, DurationFault>(part + secs),
                Err(fault) => Err(fault),
            }
        }),
{
    let after = seq![unit] + rest;
    assert(digits + seq![unit] + rest =~= digits + after);
    assert forall|i: int| 0 <= i < digits.len() implies is_digit(#[trigger] digits[i]) by {}
    lemma_digits_read(digits, after, seq![], 0);
    assert(Seq::<char>::empty() + digits =~= digits);
    assert(after.drop_first() =~= rest);
    assert(after[0] == unit);
    lemma_total(rest, seq![], number(digits) * unit_secs(unit)->0);
}

/// Law: digits are read from the left, each one place below those before it, and zeros in front
/// count nothing.
pub proof fn law_digits_are_read_in_decimal(digits: Seq<char>, last: char, n: nat)
    requires
        '0' <= last <= '9',
    ensures
        number(Seq::<char>::empty()) == 0,
        number(digits.push(last)) == number(digits) * 10 + (last as int - 48),
        number(decimal(n)) == n,
        number(seq!['0'] + digits) == number(digits),
    decreases digits.len(),
{
    lemma_decimal(n);
    assert(digits.push(last).drop_last() =~= digits);
    let all = seq!['0'] + digits;
    if digits.len() == 0 {
        assert(all =~= seq!['0']);
        assert(all.drop_last() =~= Seq::<char>::empty());
        assert(number(Seq::<char>::empty()) == 0);
    } else {
        law_digits_are_read_in_decimal(digits.drop_last(), last, n);
        assert(all.drop_last() =~= seq!['0'] + digits.drop_last());
        assert(all.last() == digits.last());
    }
}

} // verus!
