use checkpoint_harness::decimal::{decimal_string, magnitude_string, repeat_text};
use checkpoint_harness::random_key::{
    draw_chars, random_key, random_text, text_of_chars, KEY_LENGTH,
};

#[test]
fn numerals_of_small_numbers() {
    assert_eq!(decimal_string(0), "0");
    assert_eq!(decimal_string(7), "7");
    assert_eq!(decimal_string(10), "10");
    assert_eq!(decimal_string(1_000), "1000");
    assert_eq!(decimal_string(-42), "-42");
}

#[test]
fn numerals_agree_with_the_standard_library() {
    for n in [0i64, 9, 10, 99, 100, 12_345, 999_999, i64::MAX, -1, -10, i64::MIN + 1, i64::MIN] {
        assert_eq!(decimal_string(n), n.to_string());
    }
    for n in [0u64, 5, 19, 1_000_000, u64::MAX] {
        assert_eq!(magnitude_string(n), n.to_string());
    }
}

#[test]
fn repeated_text_is_copies_in_a_row() {
    assert_eq!(repeat_text("ab", 0), "");
    assert_eq!(repeat_text("ab", 1), "ab");
    assert_eq!(repeat_text("ab", 3), "ababab");
    assert_eq!(repeat_text("", 5), "");
    assert_eq!(repeat_text("123", 10_000).len(), 30_000);
}

#[test]
fn random_key_has_fixed_length_and_printable_characters() {
    for _ in 0..50 {
        let key = random_key();
        assert_eq!(key.chars().count(), 1024);
        assert_eq!(key.len(), KEY_LENGTH);
        assert!(key.chars().all(|c| 32 <= c as u32 && (c as u32) < 126));
    }
}

#[test]
fn random_text_has_the_length_asked_for() {
    assert_eq!(random_text(0), "");
    assert_eq!(random_text(1).chars().count(), 1);
    assert_eq!(random_text(300).chars().count(), 300);
}

#[test]
fn random_keys_vary() {
    let first = random_key();
    let varied = (0..20).any(|_| random_key() != first);
    assert!(varied);
    let distinct_characters = first.chars().collect::<std::collections::BTreeSet<char>>().len();
    assert!(distinct_characters > 1);
}

#[test]
fn draws_are_printable_and_as_many_as_asked_for() {
    assert!(draw_chars(0).is_empty());
    let draws = draw_chars(2_000);
    assert_eq!(draws.len(), 2_000);
    assert!(draws.iter().all(|c| (32..126).contains(&(*c as u32))));
    assert!(draws.iter().any(|c| *c != draws[0]));
}

#[test]
fn text_holds_the_characters_in_their_order() {
    assert_eq!(text_of_chars(&Vec::new()), "");
    assert_eq!(text_of_chars(&vec!['a']), "a");
    assert_eq!(text_of_chars(&vec!['k', 'e', 'y', ' ', '1']), "key 1");
    assert_eq!(text_of_chars(&vec!['z', '\u{fc}', 'r']), "z\u{fc}r");
    let draws = draw_chars(1_024);
    assert_eq!(text_of_chars(&draws).chars().collect::<Vec<char>>(), draws);
}
