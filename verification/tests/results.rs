use typist::results::bump;
use typist::results::count_mismatches;
use typist::results::Results;
use typist::results::Summary;

fn chars(s: &str) -> Vec<char> {
    s.chars().collect()
}

#[test]
fn new_results_are_all_zero() {
    let r = Results::new(42);
    assert_eq!(r.ms_elapsed, 0);
    assert_eq!(r.n_chars_to_type, 42);
    assert_eq!(r.n_chars_typed, 0);
    assert_eq!(r.n_typos, 0);
    assert_eq!(r.n_backspaces, 0);
    assert_eq!(Results::default(), Results::new(0));
}

#[test]
fn mismatches_are_counted_over_the_common_prefix() {
    assert_eq!(count_mismatches(&chars("cat dog"), &chars("cat dog")), 0);
    assert_eq!(count_mismatches(&chars("cat dog"), &chars("cxt dxg")), 2);
    assert_eq!(count_mismatches(&chars("cat dog"), &chars("xx")), 2);
    assert_eq!(count_mismatches(&chars("ca"), &chars("cxyz")), 1);
    assert_eq!(count_mismatches(&chars(""), &chars("abc")), 0);
    assert_eq!(count_mismatches(&chars("abc"), &chars("")), 0);
}

#[test]
fn summary_of_a_clean_run() {
    let r = Results { ms_elapsed: 0, n_chars_to_type: 7, n_chars_typed: 7, n_typos: 0, n_backspaces: 0 };
    assert_eq!(
        r.summarize(&chars("cat dog"), &chars("cat dog")),
        Summary {
            n_chars_typed: 7,
            incorrect_at_end: 0,
            accuracy_error_pct: 0,
            fudge_factor: 0,
            ms_elapsed: 0,
            elapsed_seconds: 0,
        }
    );
}

#[test]
fn summary_of_a_run_with_a_corrected_typo() {
    let r = Results { ms_elapsed: 4200, n_chars_to_type: 3, n_chars_typed: 5, n_typos: 1, n_backspaces: 2 };
    let s = r.summarize(&chars("cat"), &chars("cat"));
    assert_eq!(s.n_chars_typed, 5);
    assert_eq!(s.incorrect_at_end, 0);
    assert_eq!(s.fudge_factor, 1);
    assert_eq!(s.accuracy_error_pct, 0);
    assert_eq!(s.elapsed_seconds, 4);
    assert_eq!(s.ms_elapsed, 4200);
}

#[test]
fn error_percentage_is_rounded_down() {
    let r = Results { ms_elapsed: 12999, n_chars_to_type: 7, n_chars_typed: 7, n_typos: 5, n_backspaces: 0 };
    let s = r.summarize(&chars("cat dog"), &chars("cxt dxg"));
    assert_eq!(s.incorrect_at_end, 2);
    assert_eq!(s.accuracy_error_pct, 28);
    assert_eq!(s.fudge_factor, 3);
    assert_eq!(s.elapsed_seconds, 12);
}

#[test]
fn every_character_wrong_is_a_hundred_percent() {
    let r = Results::new(3);
    let s = r.summarize(&chars("abc"), &chars("xyz"));
    assert_eq!(s.accuracy_error_pct, 100);
    assert_eq!(s.fudge_factor, -3);
}

#[test]
fn a_text_of_length_zero_has_no_error_percentage() {
    let r = Results::new(0);
    let s = r.summarize(&chars(""), &chars(""));
    assert_eq!(s.accuracy_error_pct, 0);
    assert_eq!(s.elapsed_seconds, 0);
    assert_eq!(s.incorrect_at_end, 0);
}

#[test]
fn bump_stops_at_the_largest_value() {
    assert_eq!(bump(0), 1);
    assert_eq!(bump(41), 42);
    assert_eq!(bump(u16::MAX - 1), u16::MAX);
    assert_eq!(bump(u16::MAX), u16::MAX);
}
