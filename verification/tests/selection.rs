use rand::seq::SliceRandom;
use rand::SeedableRng;
use rand_xoshiro::Xoroshiro128StarStar;
use typist::lexicon::Lexicon;
use typist::word_selector::collect_words;
use typist::word_selector::lowercase_words;
use typist::word_selector::select_words;
use typist::word_selector::ConfigError;
use typist::word_selector::WordSelector;

fn words_of(list: &[&str]) -> Vec<String> {
    list.iter().map(|w| w.to_string()).collect()
}

fn animals() -> Vec<String> {
    words_of(&[
        "ant", "bee", "cat", "dog", "eel", "fox", "gnu", "hen", "ibis", "jay", "koi", "lynx", "mole",
        "newt", "owl", "pig", "quail", "rat", "seal", "toad",
    ])
}

fn lexicon_of(words: Vec<String>) -> Lexicon {
    Lexicon { words }
}

fn selector(words: Vec<String>, n: usize, seed: u64) -> WordSelector {
    match WordSelector::new(lexicon_of(words), n, Some(seed)) {
        Ok(s) => s,
        Err(_) => panic!("the lexicon holds enough words"),
    }
}

#[test]
fn more_words_than_the_lexicon_holds_are_refused() {
    let five = words_of(&["a", "b", "c", "d", "e"]);
    match WordSelector::new(lexicon_of(five), 10, Some(1)) {
        Err(e) => assert_eq!(e, ConfigError::TooManyWords { requested: 10, available: 5 }),
        Ok(_) => panic!("ten words were asked of a lexicon of five"),
    }
}

#[test]
fn as_many_words_as_the_lexicon_holds_are_accepted() {
    let five = words_of(&["a", "b", "c", "d", "e"]);
    let mut s = selector(five.clone(), 5, 1);
    let mut words = s.select_words_from_lexicon();
    words.sort();
    assert_eq!(words, five);
}

#[test]
fn no_words_can_be_asked_for() {
    let mut s = selector(Vec::new(), 0, 1);
    assert!(s.select_words_from_lexicon().is_empty());
}

#[test]
fn the_same_seed_gives_the_same_words() {
    for seed in [0u64, 1, 42, u64::MAX] {
        let mut a = selector(animals(), 7, seed);
        let mut b = selector(animals(), 7, seed);
        assert_eq!(a.seed(), seed);
        assert_eq!(a.select_words_from_lexicon(), b.select_words_from_lexicon());
    }
}

#[test]
fn the_same_seed_gives_the_same_series_of_exercises() {
    let mut a = selector(animals(), 7, 99);
    let mut b = selector(animals(), 7, 99);
    let mut series = Vec::new();
    for _ in 0..5 {
        let words = a.select_words_from_lexicon();
        assert_eq!(words, b.select_words_from_lexicon());
        series.push(words);
    }
    assert!(series.iter().any(|words| *words != series[0]));
}

#[test]
fn different_seeds_give_different_words() {
    let mut a = selector(animals(), 10, 1);
    let mut b = selector(animals(), 10, 2);
    assert_ne!(a.select_words_from_lexicon(), b.select_words_from_lexicon());
}

#[test]
fn a_seed_from_the_system_can_be_read_and_used_again() {
    let mut a = match WordSelector::new(lexicon_of(animals()), 8, None) {
        Ok(s) => s,
        Err(_) => panic!("the lexicon holds enough words"),
    };
    let mut b = selector(animals(), 8, a.seed());
    assert_eq!(a.select_words_from_lexicon(), b.select_words_from_lexicon());
}

#[test]
fn no_word_is_selected_twice() {
    for seed in 0..50u64 {
        let mut s = selector(animals(), 12, seed);
        let mut words = s.select_words_from_lexicon();
        assert_eq!(words.len(), 12);
        assert!(words.iter().all(|w| animals().contains(w)));
        words.sort();
        words.dedup();
        assert_eq!(words.len(), 12);
    }
}

#[test]
fn the_places_drawn_are_distinct_and_in_range() {
    let numbers: Vec<String> = (0..30).map(|i: usize| i.to_string()).collect();
    for seed in 0..50u64 {
        let mut rng = Xoroshiro128StarStar::seed_from_u64(seed);
        let words = select_words(&numbers, 20, &mut rng);
        let mut places: Vec<usize> = words.iter().map(|w| w.parse().unwrap()).collect();
        assert_eq!(places.len(), 20);
        assert!(places.iter().all(|&i| i < 30));
        places.sort();
        places.dedup();
        assert_eq!(places.len(), 20);
    }
}

#[test]
fn selection_samples_then_shuffles() {
    let lexicon = animals();
    for seed in [3u64, 7, 1234] {
        let mut reference = Xoroshiro128StarStar::seed_from_u64(seed);
        let indices = rand::seq::index::sample(&mut reference, lexicon.len(), 10).into_vec();
        let collected: Vec<String> = indices.iter().map(|&i| lexicon[i].clone()).collect();
        let mut expected = collected.clone();
        expected.shuffle(&mut reference);

        let mut rng = Xoroshiro128StarStar::seed_from_u64(seed);
        assert_eq!(select_words(&lexicon, 10, &mut rng), expected);
        assert_eq!(rng, reference);

        let mut s = selector(lexicon.clone(), 10, seed);
        assert_eq!(s.select_words_from_lexicon(), expected);
        assert_eq!(s.rng, reference);
    }
}

#[test]
fn the_shuffle_changes_the_order() {
    let lexicon = animals();
    let mut changed = 0;
    for seed in 0..10u64 {
        let mut reference = Xoroshiro128StarStar::seed_from_u64(seed);
        let indices = rand::seq::index::sample(&mut reference, lexicon.len(), 10).into_vec();
        let collected: Vec<String> = indices.iter().map(|&i| lexicon[i].clone()).collect();
        let mut rng = Xoroshiro128StarStar::seed_from_u64(seed);
        if select_words(&lexicon, 10, &mut rng) != collected {
            changed += 1;
        }
    }
    assert!(changed >= 9);
}

#[test]
fn selected_words_are_in_lower_case() {
    let mut s = selector(words_of(&["Ant", "BEE", "cAt"]), 3, 11);
    let mut words = s.select_words_from_lexicon();
    words.sort();
    assert_eq!(words, words_of(&["ant", "bee", "cat"]));
    let mut rng = Xoroshiro128StarStar::seed_from_u64(11);
    let mut plain = select_words(&words_of(&["Ant", "BEE", "cAt"]), 3, &mut rng);
    plain.sort();
    assert_eq!(plain, words_of(&["Ant", "BEE", "cAt"]));
}

#[test]
fn collect_words_takes_the_words_at_the_indices() {
    let lexicon = words_of(&["a", "b", "c", "d"]);
    assert_eq!(collect_words(&lexicon, &vec![3, 0, 2]), words_of(&["d", "a", "c"]));
    assert_eq!(collect_words(&lexicon, &vec![1, 1]), words_of(&["b", "b"]));
    assert!(collect_words(&lexicon, &Vec::new()).is_empty());
}

#[test]
fn lowercase_words_keeps_the_order() {
    assert_eq!(lowercase_words(&words_of(&["Zed", "a", "ÄB"])), words_of(&["zed", "a", "Äb"]));
}

#[test]
fn a_selector_keeps_its_lexicon_and_number() {
    let mut s = selector(animals(), 4, 8);
    s.select_words_from_lexicon();
    assert_eq!(s.lexicon, animals());
    assert_eq!(s.n_words, 4);
    assert_eq!(s.seed(), 8);
}
