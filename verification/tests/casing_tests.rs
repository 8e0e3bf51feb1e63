use memebox::casing::{randomize_string_case, swap_case, swap_case_at};
use memebox::engine::keyval_is_ignored;

#[test]
fn swap_case_of_letters() {
    assert_eq!(swap_case('a'), 'A');
    assert_eq!(swap_case('Z'), 'z');
    assert_eq!(swap_case('é'), 'É');
    assert_eq!(swap_case('Ω'), 'ω');
}

#[test]
fn swap_case_leaves_other_characters() {
    assert_eq!(swap_case('1'), '1');
    assert_eq!(swap_case(' '), ' ');
    assert_eq!(swap_case('!'), '!');
}

#[test]
fn swap_case_takes_first_character_of_longer_mapping() {
    // 'ß' upper-cases to "SS".
    assert_eq!(swap_case('ß'), 'S');
}

#[test]
fn swap_case_at_given_positions() {
    let mut chars: Vec<char> = "hello world".chars().collect();
    swap_case_at(&mut chars, &vec![0, 6, 4]);
    let s: String = chars.into_iter().collect();
    assert_eq!(s, "HellO World");
}

#[test]
fn swap_case_at_no_positions() {
    let mut chars: Vec<char> = "abc".chars().collect();
    swap_case_at(&mut chars, &vec![]);
    assert_eq!(chars, vec!['a', 'b', 'c']);
}

fn flipped_count(original: &str, randomized: &str) -> usize {
    assert_eq!(original.chars().count(), randomized.chars().count());
    original
        .chars()
        .zip(randomized.chars())
        .filter(|(a, b)| {
            if a == b {
                false
            } else {
                assert_eq!(swap_case(*a), *b);
                true
            }
        })
        .count()
}

#[test]
fn randomize_flips_between_a_quarter_and_three_quarters() {
    let word = "abcdefgh";
    for _ in 0..200 {
        let r = randomize_string_case(word);
        let k = flipped_count(word, &r);
        // 8 letters: at least 2, fewer than 6 flipped.
        assert!(k >= 2 && k < 6, "{} flipped {}", r, k);
    }
}

#[test]
fn randomize_short_strings() {
    for _ in 0..50 {
        assert_eq!(randomize_string_case(""), "");
        // One or two characters: the number drawn is below one.
        assert_eq!(randomize_string_case("a"), "a");
        assert_eq!(randomize_string_case("ab"), "ab");
        // Three characters: zero or one flipped.
        let k = flipped_count("abc", &randomize_string_case("abc"));
        assert!(k <= 1);
    }
}

#[test]
fn randomize_keeps_characters_without_case() {
    for _ in 0..20 {
        assert_eq!(randomize_string_case("1234 !?"), "1234 !?");
    }
}

#[test]
fn keys_with_control_are_ignored() {
    assert!(keyval_is_ignored('a', 4));
    assert!(keyval_is_ignored('a', 4 | 1));
}

#[test]
fn keys_typing_nothing_are_ignored() {
    assert!(keyval_is_ignored('\0', 0));
}

#[test]
fn plain_keys_are_not_ignored() {
    assert!(!keyval_is_ignored('a', 0));
    assert!(!keyval_is_ignored('A', 1));
}
