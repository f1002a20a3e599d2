use std::sync::Arc;

use give_me_dns::config::ProviderConfig;
use give_me_dns::config::RandomProviderConfig;
use give_me_dns::config::WordlistProviderConfig;
use give_me_dns::idprov::enabled_providers;
use give_me_dns::idprov::id_from_digits;
use give_me_dns::idprov::IdProvider;
use give_me_dns::idprov::ProviderManager;
use give_me_dns::idprov::RandomProvider;
use give_me_dns::idprov::WordlistProvider;

#[test]
fn words_come_from_the_list() {
    let provider = WordlistProvider::new("apple\n\nbanana\r\ncherry");
    let mut seen: Vec<String> = Vec::new();
    for _ in 0..400 {
        let word = provider.generate();
        assert!(["apple", "banana", "cherry"].contains(&word.as_str()), "{}", word);
        if !seen.contains(&word) {
            seen.push(word);
        }
    }
    assert_eq!(seen.len(), 3);
    assert_eq!(provider.name(), "wordlist");
}

#[test]
fn an_empty_list_gives_unknown() {
    assert_eq!(WordlistProvider::new("").generate(), "unknown");
    assert_eq!(WordlistProvider::new("\n\n").generate(), "unknown");
}

#[test]
fn random_ids_are_hexadecimal() {
    for len in [0usize, 1, 3, 31, 32] {
        let id = RandomProvider::new(len).generate();
        assert_eq!(id.len(), len);
        assert!(id.chars().all(|c| c.is_ascii_digit() || ('a'..='f').contains(&c)));
    }
    assert_eq!(RandomProvider::new(100).generate().len(), 32);
    for _ in 0..50 {
        let id = RandomProvider::new(17).generate();
        assert_eq!(id.as_bytes()[12], b'4');
        assert!(b"89ab".contains(&id.as_bytes()[16]));
    }
    assert_eq!(id_from_digits("0123456789abcdef", 3), "012");
    assert_eq!(id_from_digits("0123", 4), "0123");
    assert_eq!(id_from_digits("0123", 5), "0123");
    assert_eq!(id_from_digits("0123", 0), "");
    assert_ne!(RandomProvider::new(32).generate(), RandomProvider::new(32).generate());
    assert_eq!(RandomProvider::new(3).name(), "random");
}

#[test]
fn providers_take_turns() {
    let providers: Vec<Arc<dyn IdProvider>> = vec![
        Arc::new(WordlistProvider::new("one")),
        Arc::new(WordlistProvider::new("two")),
        Arc::new(WordlistProvider::new("three")),
    ];
    let manager = ProviderManager::new(providers);
    let ids: Vec<String> = (0..7).map(|_| manager.generate()).collect();
    assert_eq!(ids, ["one", "two", "three", "one", "two", "three", "one"]);
    assert_eq!(manager.generate_at(5), "three");
    assert_eq!(manager.generate_at(6), "one");
}

#[test]
fn a_manager_without_providers_falls_back() {
    let manager = ProviderManager::new(Vec::new());
    assert_eq!(manager.generate(), "fallback");
    assert_eq!(manager.generate_at(3), "fallback");
}

#[test]
fn providers_are_switched_on_by_the_settings() {
    let config = |words: bool, random: bool| ProviderConfig {
        wordlist: WordlistProviderConfig { enable: words },
        random: RandomProviderConfig { enable: random, id_len: 4 },
    };
    let both = enabled_providers(&config(true, true), "w\n").ok().unwrap();
    assert_eq!(both.wordlist.unwrap().generate(), "w");
    assert_eq!(both.random.unwrap().generate().len(), 4);
    let one = enabled_providers(&config(false, true), "w\n").ok().unwrap();
    assert!(one.wordlist.is_none() && one.random.is_some());
    assert_eq!(
        enabled_providers(&config(false, false), "w\n").err().unwrap(),
        "No ID providers enabled. Enable at least one provider in config."
    );
}
