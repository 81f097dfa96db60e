use isuports::ids::dispense_id;
use isuports::rnd::{gen, gen_bool, gen_from, gen_fraction, gen_range, init, seeded, MAX};
use isuports::text::{decimal_text, same_text, signed_decimal_text, trim_end_matches};

const STEP1: usize = 1581231;
const STEP2: usize = 202273556;

#[test]
fn decimal_texts_have_no_leading_zeros() {
    assert_eq!(decimal_text(0), "0");
    assert_eq!(decimal_text(7), "7");
    assert_eq!(decimal_text(120), "120");
    assert_eq!(decimal_text(u128::MAX), u128::MAX.to_string());
}

#[test]
fn signed_decimal_texts_have_a_sign_below_zero() {
    assert_eq!(signed_decimal_text(0), "0");
    assert_eq!(signed_decimal_text(42), "42");
    assert_eq!(signed_decimal_text(-42), "-42");
    assert_eq!(signed_decimal_text(i64::MIN), i64::MIN.to_string());
    assert_eq!(signed_decimal_text(i64::MAX), i64::MAX.to_string());
}

#[test]
fn every_copy_of_the_suffix_is_trimmed() {
    assert_eq!(trim_end_matches("foo.t.isucon.local", ".t.isucon.local"), "foo");
    assert_eq!(trim_end_matches("fooabab", "ab"), "foo");
    assert_eq!(trim_end_matches("foo", ".t.isucon.local"), "foo");
    assert_eq!(trim_end_matches("foo", ""), "foo");
    assert_eq!(trim_end_matches("", "a"), "");
    assert_eq!(trim_end_matches("aaa", "a"), "");
}

#[test]
fn texts_are_the_same_character_by_character() {
    assert!(same_text("", ""));
    assert!(same_text("scores", "scores"));
    assert!(!same_text("scores", "score"));
    assert!(!same_text("scores", "Scores"));
}

#[test]
fn the_generator_steps_from_its_seed() {
    let mut state: usize = 0;
    init(&mut state, 12345);
    assert_eq!(state, 12345);
    assert_eq!(gen(&mut state), STEP1);
    assert_eq!(gen(&mut state), STEP2);
    assert_eq!(state, STEP2);
}

#[test]
fn a_generator_without_a_seed_gets_one() {
    let mut state: usize = 0;
    init(&mut state, 0);
    let mut words: Vec<usize> = Vec::new();
    for _ in 0..8 {
        let mut fresh: usize = 0;
        words.push(gen(&mut fresh));
    }
    words.dedup();
    assert!(words.len() > 1);
    assert_eq!(gen_from(0, 12345), STEP1);
    assert_eq!(gen_from(12345, 99), STEP1);
    assert_eq!(seeded(0, 99), 99);
    assert_eq!(seeded(5, 99), 5);
}

#[test]
fn ranges_bools_and_fractions_come_from_the_next_word() {
    let mut state: usize = 12345;
    assert_eq!(gen_range(&mut state, 10, 100), STEP1 % 90 + 10);
    let mut state: usize = 12345;
    assert_eq!(gen_bool(&mut state), STEP1 % 2 == 1);
    let mut state: usize = 12345;
    assert_eq!(gen_fraction(&mut state), STEP1 % MAX);
    let mut state: usize = 1;
    for _ in 0..1000 {
        let n = gen_range(&mut state, 3, 7);
        assert!(3 <= n && n < 7);
        assert_ne!(state, 0);
    }
}

#[test]
fn ids_are_a_time_and_a_number() {
    let mut state: usize = 12345;
    assert_eq!(dispense_id(&mut state, 6789), format!("6789-{}", STEP1 % 999_999 + 1));
    let mut seen: Vec<String> = Vec::new();
    for nanos in 0..200 {
        seen.push(dispense_id(&mut state, nanos));
    }
    seen.sort();
    seen.dedup();
    assert_eq!(seen.len(), 200);
}

#[test]
fn different_states_step_to_different_states() {
    let mut words: Vec<usize> = Vec::new();
    for seed in 1..500 {
        let mut state: usize = seed;
        words.push(gen(&mut state));
    }
    words.sort();
    words.dedup();
    assert_eq!(words.len(), 499);
}
