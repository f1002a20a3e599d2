//! Where the ids of new names come from.
use std::sync::Arc;

use rand::seq::IndexedRandom;
use uuid::Uuid;
use vstd::prelude::*;

use crate::config::ProviderConfig;
use crate::outside::uuid_was_drawn;
use crate::outside::word_was_drawn;
use crate::text::chars_of;
use crate::text::lines;
use crate::text::lines_of;
use crate::text::string_of;
use crate::text::texts;
use crate::turns::Turn;
use crate::turns::Turns;

verus! {

/// A source of ids.
pub trait IdProvider: Send + Sync {
    /// The provider may generate `id`.
    spec fn offers(&self, id: Seq<char>) -> bool;

    /// What the provider is called.
    spec fn title(&self) -> Seq<char>;

    /// Generates an id.
    fn generate(&self) -> (id: String)
        ensures
            self.offers(id@),
    ;

    /// The name of the provider.
    fn name(&self) -> (r: &'static str)
        ensures
            r@ == self.title(),
    ;
}

/// What the strings hold.
pub open spec fn strings(v: Seq<String>) -> Seq<Seq<char>> {
    v.map_values(|s: String| s@)
}

/// The words in a list with a word on each line: the lines that are not empty.
pub open spec fn words_of(list: Seq<char>) -> Seq<Seq<char>> {
    lines_of(list).filter(|line: Seq<char>| line.len() > 0)
}

/// A provider with these words may generate `id`: one of the words, drawn at random, or `unknown`
/// where there are none.
pub open spec fn word_offered(words: Seq<Seq<char>>, id: Seq<char>) -> bool {
    if words.len() == 0 {
        id == "unknown"@
    } else {
        words.contains(id) && word_was_drawn(words, id)
    }
}

/// A lower case hexadecimal digit.
pub open spec fn hex_char(c: char) -> bool {
    '0' <= c <= '9' || 'a' <= c <= 'f'
}

/// The first digits of a random UUID: hexadecimal, the thirteenth a `4` for the version, and the
/// seventeenth one from `8` to `b` for the variant.
pub open spec fn uuid_digits(digits: Seq<char>) -> bool {
    &&& forall|i: int| 0 <= i < digits.len() ==> hex_char(#[trigger] digits[i])
    &&& digits.len() > 12 ==> digits[12] == '4'
    &&& digits.len() > 16 ==> digits[16] == '8' || digits[16] == '9' || digits[16] == 'a'
        || digits[16] == 'b'
}

/// The first `id_len` of some digits, or all of them where there are no more.
pub open spec fn first_digits(digits: Seq<char>, id_len: usize) -> Seq<char> {
    digits.take(
        if id_len < digits.len() {
            id_len as int
        } else {
            digits.len() as int
        },
    )
}

/// A provider with this length may generate `id`: as many of the first digits of a random UUID,
/// but no more than its 32.
pub open spec fn random_offered(id_len: usize, id: Seq<char>) -> bool {
    &&& id.len() == if id_len < 32 {
        id_len as int
    } else {
        32
    }
    &&& uuid_digits(id)
    &&& exists|digits: Seq<char>| #[trigger]
        uuid_was_drawn(digits) && digits.len() == 32 && id == first_digits(digits, id_len)
}

/// Takes ids from a list of words.
pub struct WordlistProvider {
    words: Vec<String>,
}

/// Makes ids at random.
pub struct RandomProvider {
    id_len: usize,
}

/// Calls `rand::seq::IndexedRandom::choose` with the random generator of the thread. It picks one
/// of the words, and none only where there are none. What it picks is drawn.
#[verifier::external_body]
fn choose_word(words: &[String]) -> (r: Option<&String>)
    ensures
        r is None <==> words@.len() == 0,
        r matches Some(word) ==> strings(words@).contains(word@),
        r matches Some(word) ==> word_was_drawn(strings(words@), word@),
{
    words.choose(&mut rand::rng())
}

/// Calls `uuid::Uuid::new_v4` and writes the random UUID in its simple form: 32 lower case
/// hexadecimal digits, with those of its version and variant at their places. They are drawn.
#[verifier::external_body]
fn random_uuid() -> (r: String)
    ensures
        r@.len() == 32,
        uuid_digits(r@),
        uuid_was_drawn(r@),
{
    Uuid::new_v4().simple().to_string()
}

impl WordlistProvider {
    /// The words to choose from.
    pub closed spec fn words(&self) -> Seq<Seq<char>> {
        strings(self.words@)
    }

    /// A provider with the words of a list, one on each line.
    pub fn new(list: &str) -> (r: WordlistProvider)
        ensures
            r.words() == words_of(list@),
    {
        let all: Vec<Vec<char>> = lines(chars_of(list).as_slice());
        let ghost seen = texts(all@);
        let ghost keep = |line: Seq<char>| line.len() > 0;
        let mut words: Vec<String> = Vec::new();
        let mut i: usize = 0;
        proof {
            reveal(Seq::filter);
            assert(seen.take(0).filter(keep) =~= strings(words@));
        }
        while i < all.len()
            invariant
                i <= all@.len(),
                seen == texts(all@),
                keep == (|line: Seq<char>| line.len() > 0),
                strings(words@) == seen.take(i as int).filter(keep),
            decreases all.len() - i,
        {
            let ghost before = words@;
            proof {
                reveal(Seq::filter);
                let next = seen.take(i + 1);
                assert(next.drop_last() =~= seen.take(i as int));
                assert(next.last() == all@[i as int]@);
            }
            if all[i].len() > 0 {
                words.push(string_of(all[i].as_slice()));
                assert(strings(words@) =~= strings(before).push(all@[i as int]@));
            }
            i += 1;
        }
        assert(seen.take(i as int) =~= seen);
        WordlistProvider { words }
    }
}

impl IdProvider for WordlistProvider {
    open spec fn offers(&self, id: Seq<char>) -> bool {
        word_offered(self.words(), id)
    }

    open spec fn title(&self) -> Seq<char> {
        "wordlist"@
    }

    fn generate(&self) -> (id: String) {
        match choose_word(self.words.as_slice()) {
            Some(word) => word.clone(),
            None => "unknown".to_string(),
        }
    }

    fn name(&self) -> (r: &'static str) {
        "wordlist"
    }
}

/// The id that the digits of a UUID give: the first `id_len` of them, or all.
pub fn id_from_digits(digits: &str, id_len: usize) -> (r: String)
    ensures
        r@ == first_digits(digits@, id_len),
{
    let chars: Vec<char> = chars_of(digits);
    let len: usize = if id_len < chars.len() {
        id_len
    } else {
        chars.len()
    };
    assert(chars@.subrange(0, len as int) =~= chars@.take(len as int));
    string_of(vstd::slice::slice_subrange(chars.as_slice(), 0, len))
}

impl RandomProvider {
    /// The length that ids are to have.
    pub closed spec fn id_len(&self) -> usize {
        self.id_len
    }

    /// A provider of ids with `id_len` digits, but no more than 32.
    pub fn new(id_len: usize) -> (r: RandomProvider)
        ensures
            r.id_len() == id_len,
    {
        RandomProvider { id_len }
    }
}

impl IdProvider for RandomProvider {
    open spec fn offers(&self, id: Seq<char>) -> bool {
        random_offered(self.id_len(), id)
    }

    open spec fn title(&self) -> Seq<char> {
        "random"@
    }

    fn generate(&self) -> (id: String) {
        let digits: String = random_uuid();
        assert(uuid_was_drawn(digits@));
        id_from_digits(digits.as_str(), self.id_len)
    }

    fn name(&self) -> (r: &'static str) {
        "random"
    }
}

/// Lets its providers take turns.
pub struct ProviderManager {
    providers: Vec<Arc<dyn IdProvider>>,
    current: Turns,
}

/// Whose turn it is among `len` providers after `count` ids.
pub open spec fn turn(count: nat, len: nat) -> nat
    recommends
        len > 0,
{
    count % len
}

impl ProviderManager {
    /// The providers.
    pub closed spec fn providers(&self) -> Seq<Arc<dyn IdProvider>> {
        self.providers@
    }

    /// The provider whose turn it is may generate `id`.
    pub open spec fn offers_at(&self, taken: Turn, id: Seq<char>) -> bool {
        self.providers()[turn(taken.number() as nat, self.providers().len()) as int].offers(id)
    }

    /// The manager may generate `id`: the provider may whose turn it is, for a turn that was
    /// taken, or there are none and the id is `fallback`.
    pub open spec fn offers(&self, id: Seq<char>) -> bool {
        if self.providers().len() == 0 {
            id == "fallback"@
        } else {
            exists|taken: Turn| #[trigger] self.offers_at(taken, id)
        }
    }

    /// A manager that begins with the first of the providers.
    pub fn new(providers: Vec<Arc<dyn IdProvider>>) -> (r: ProviderManager)
        ensures
            r.providers() == providers@,
    {
        ProviderManager { providers, current: Turns::new() }
    }

    /// Generates an id with the provider whose turn it is.
    pub fn generate(&self) -> (id: String)
        ensures
            self.offers(id@),
    {
        if self.providers.len() == 0 {
            return "fallback".to_string();
        }
        let taken: Turn = self.current.take();
        let id: String = self.generate_at(taken.count());
        assert(self.offers_at(taken, id@));
        id
    }

    /// Generates the id that comes after `count` others.
    pub fn generate_at(&self, count: usize) -> (id: String)
        ensures
            if self.providers().len() == 0 {
                id@ == "fallback"@
            } else {
                self.providers()[turn(count as nat, self.providers().len()) as int].offers(id@)
            },
    {
        if self.providers.len() == 0 {
            return "fallback".to_string();
        }
        self.providers[count % self.providers.len()].generate()
    }
}

/// The providers that are switched on, in the order of their turns.
pub struct EnabledProviders {
    pub wordlist: Option<WordlistProvider>,
    pub random: Option<RandomProvider>,
}

/// Sets up the providers that are switched on, with the words of a list. With none of them there
/// is an error.
pub fn enabled_providers(config: &ProviderConfig, list: &str) -> (r: Result<
    EnabledProviders,
    String,
>)
    ensures
        match r {
            Ok(enabled) => {
                &&& config.wordlist.enable || config.random.enable
                &&& enabled.wordlist is Some <==> config.wordlist.enable
                &&& enabled.random is Some <==> config.random.enable
                &&& enabled.wordlist matches Some(p) ==> p.words() == words_of(list@)
                &&& enabled.random matches Some(p) ==> p.id_len() == config.random.id_len
            },
            Err(message) => {
                &&& !config.wordlist.enable && !config.random.enable
                &&& message@
                    == "No ID providers enabled. Enable at least one provider in config."@
            },
        },
{
    let wordlist: Option<WordlistProvider> = if config.wordlist.enable {
        Some(WordlistProvider::new(list))
    } else {
        None
    };
    let random: Option<RandomProvider> = if config.random.enable {
        Some(RandomProvider::new(config.random.id_len))
    } else {
        None
    };
    if wordlist.is_none() && random.is_none() {
        return Err("No ID providers enabled. Enable at least one provider in config.".to_string());
    }
    Ok(EnabledProviders { wordlist, random })
}

/// Law: the providers take turns in their order, and after the last comes the first.
pub proof fn law_providers_take_turns(count: nat, len: nat)
    requires
        len > 0,
    ensures
        turn(count + 1, len) == if turn(count, len) + 1 == len {
            0
        } else {
            turn(count, len) + 1
        },
{
    vstd::arithmetic::div_mod::lemma_fundamental_div_mod(count as int, len as int);
    let q = count as int / len as int;
    let r = count as int % len as int;
    if r + 1 == len {
        assert(count + 1 == (q + 1) * len) by (nonlinear_arith)
            requires
                count == len * q + r,
                r + 1 == len,
        ;
        vstd::arithmetic::div_mod::lemma_fundamental_div_mod_converse(
            count as int + 1,
            len as int,
            q + 1,
            0,
        );
    } else {
        assert(count + 1 == q * len + (r + 1)) by (nonlinear_arith)
            requires
                count == len * q + r,
        ;
        vstd::arithmetic::div_mod::lemma_fundamental_div_mod_converse(
            count as int + 1,
            len as int,
            q,
            r + 1,
        );
    }
}

/// Whose turn it is `j` ids later.
pub open spec fn turn_after(count: nat, j: nat, len: nat) -> nat {
    turn(count + j, len)
}

/// Law: of as many ids in a row as there are providers, every provider gives exactly one. The
/// provider at `place` gives the one after `count + i` others, for one `i` alone.
pub proof fn law_round_uses_every_provider_once(count: nat, len: nat, place: nat) -> (i: nat)
    requires
        place < len,
    ensures
        i < len,
        turn_after(count, i, len) == place,
        forall|j: nat| j < len && #[trigger] turn_after(count, j, len) == place ==> i == j,
{
    let first = turn(count, len);
    let i = if first <= place {
        (place - first) as nat
    } else {
        (len + place - first) as nat
    };
    assert forall|j: nat| j < len implies #[trigger] turn_after(count, j, len) == (if first + j
        < len {
        first + j
    } else {
        (first + j - len) as nat
    }) by {
        lemma_turn_after(count, len, j);
    }
    assert(turn_after(count, i, len) == place);
    i
}

proof fn lemma_turn_after(count: nat, len: nat, j: nat)
    requires
        j < len,
    ensures
        turn_after(count, j, len) == if turn(count, len) + j < len {
            turn(count, len) + j
        } else {
            (turn(count, len) + j - len) as nat
        },
    decreases j,
{
    if j > 0 {
        lemma_turn_after(count, len, (j - 1) as nat);
        law_providers_take_turns(count + (j - 1) as nat, len);
        assert(count + (j - 1) as nat + 1 == count + j);
    } else {
        vstd::arithmetic::div_mod::lemma_mod_bound(count as int, len as int);
    }
}

/// Law: an id of the manager comes from the provider whose turn it is, for a turn that was taken.
pub proof fn law_id_comes_from_the_provider_in_turn(manager: ProviderManager, id: Seq<char>) -> (
    taken: Turn)
    requires
        manager.providers().len() > 0,
        manager.offers(id),
    ensures
        manager.providers()[(taken.number() as nat % manager.providers().len()) as int].offers(id),
{
    choose|taken: Turn| #[trigger] manager.offers_at(taken, id)
}

} // verus!
