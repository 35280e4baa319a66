use checkpoint_harness::words::{
    checked_number_to_words, convert99, convert999, number_to_words, OutOfRange, MAX_MAGNITUDE,
};

#[test]
fn zero_is_named() {
    assert_eq!(number_to_words(0), "zero");
}

#[test]
fn teens_and_tens() {
    assert_eq!(number_to_words(19), "nineteen");
    assert_eq!(number_to_words(20), "twenty");
    assert_eq!(number_to_words(21), "twenty-one");
}

#[test]
fn hundreds() {
    assert_eq!(number_to_words(100), "one hundred");
    assert_eq!(number_to_words(101), "one hundred one");
    assert_eq!(number_to_words(110), "one hundred ten");
}

#[test]
fn thousands() {
    assert_eq!(number_to_words(1000), "one thousand");
    assert_eq!(number_to_words(1001), "one thousand, one");
}

#[test]
fn negative_numbers_begin_with_minus() {
    assert_eq!(number_to_words(-5), "minus five");
    assert_eq!(number_to_words(-1000), "minus one thousand");
    assert_eq!(number_to_words(-MAX_MAGNITUDE).len(), "minus ".len() + number_to_words(MAX_MAGNITUDE).len());
}

#[test]
fn every_low_name() {
    let expected = [
        "zero", "one", "two", "three", "four", "five", "six", "seven", "eight", "nine", "ten",
        "eleven", "twelve", "thirteen", "fourteen", "fifteen", "sixteen", "seventeen", "eighteen",
        "nineteen",
    ];
    for (n, name) in expected.iter().enumerate() {
        assert_eq!(convert99(n as i64), *name);
        assert_eq!(convert999(n as i64), *name);
        assert_eq!(number_to_words(n as i64), *name);
    }
}

#[test]
fn every_tens_name() {
    let expected = [
        "twenty", "thirty", "forty", "fifty", "sixty", "seventy", "eighty", "ninety",
    ];
    for (i, name) in expected.iter().enumerate() {
        let n = 20 + 10 * i as i64;
        assert_eq!(convert99(n), *name);
        assert_eq!(convert99(n + 7), format!("{}-seven", name));
    }
}

#[test]
fn two_digit_edges() {
    assert_eq!(convert99(0), "zero");
    assert_eq!(convert99(42), "forty-two");
    assert_eq!(convert99(90), "ninety");
    assert_eq!(convert99(99), "ninety-nine");
}

#[test]
fn three_digit_edges() {
    assert_eq!(convert999(0), "zero");
    assert_eq!(convert999(99), "ninety-nine");
    assert_eq!(convert999(100), "one hundred");
    assert_eq!(convert999(200), "two hundred");
    assert_eq!(convert999(219), "two hundred nineteen");
    assert_eq!(convert999(340), "three hundred forty");
    assert_eq!(convert999(999), "nine hundred ninety-nine");
}

#[test]
fn zero_chunks_add_no_separator() {
    assert_eq!(number_to_words(1_000_000), "one million");
    assert_eq!(number_to_words(1_000_001), "one million, one");
    assert_eq!(number_to_words(1_001_000), "one million, one thousand");
    assert_eq!(number_to_words(2_000_000_000), "two billion");
    assert_eq!(number_to_words(2_000_000_017), "two billion, seventeen");
    assert_eq!(number_to_words(5_000_300_000), "five billion, three hundred thousand");
}

#[test]
fn every_scale_in_one_name() {
    assert_eq!(
        number_to_words(1_234_567_890),
        "one billion, two hundred thirty-four million, five hundred sixty-seven thousand, eight hundred ninety"
    );
    assert_eq!(
        number_to_words(MAX_MAGNITUDE),
        "nine hundred ninety-nine billion, nine hundred ninety-nine million, nine hundred ninety-nine thousand, nine hundred ninety-nine"
    );
}

#[test]
fn first_and_last_with_a_comma() {
    assert_eq!(number_to_words(999), "nine hundred ninety-nine");
    assert_eq!(number_to_words(1_100), "one thousand, one hundred");
    assert_eq!(number_to_words(21_021), "twenty-one thousand, twenty-one");
    assert_eq!(number_to_words(100_000), "one hundred thousand");
}

#[test]
fn checked_names_what_has_a_name() {
    assert_eq!(checked_number_to_words(0), Ok("zero".to_string()));
    assert_eq!(checked_number_to_words(-21), Ok("minus twenty-one".to_string()));
    assert_eq!(checked_number_to_words(MAX_MAGNITUDE), Ok(number_to_words(MAX_MAGNITUDE)));
    assert_eq!(checked_number_to_words(-MAX_MAGNITUDE), Ok(number_to_words(-MAX_MAGNITUDE)));
}

#[test]
fn checked_reports_what_is_out_of_range() {
    let above = MAX_MAGNITUDE + 1;
    assert_eq!(checked_number_to_words(above), Err(OutOfRange { value: above }));
    assert_eq!(checked_number_to_words(-above), Err(OutOfRange { value: -above }));
    assert_eq!(checked_number_to_words(i64::MAX), Err(OutOfRange { value: i64::MAX }));
    assert_eq!(checked_number_to_words(i64::MIN), Err(OutOfRange { value: i64::MIN }));
}

#[test]
fn names_are_distinct_up_to_twenty_thousand() {
    let mut names: Vec<String> = (-10_000..10_000).map(number_to_words).collect();
    let count = names.len();
    names.sort();
    names.dedup();
    assert_eq!(names.len(), count);
}

#[test]
fn names_are_distinct_across_scales() {
    let numbers: [i64; 12] = [
        1,
        1_000,
        1_000_000,
        1_000_000_000,
        1_001,
        1_001_000,
        1_001_000_000,
        1_000_001,
        1_000_000_001,
        1_000_001_000,
        100,
        100_000,
    ];
    for a in numbers.iter() {
        for b in numbers.iter() {
            if a != b {
                assert_ne!(number_to_words(*a), number_to_words(*b));
                assert_ne!(number_to_words(-*a), number_to_words(*b));
            }
        }
    }
}

#[test]
fn key_order_differs_from_numeric_order() {
    assert!(number_to_words(8) < number_to_words(5));
    assert!(number_to_words(5) < number_to_words(4));
}
